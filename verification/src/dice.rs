use rand::Rng;
use vstd::prelude::*;

verus! {

/// A handful of identical dice: `number` dice with `die` faces each.
pub struct Dice {
    pub number: i16,
    pub die: i16,
}

/// One draw from the thread-local generator through `rand::Rng::gen_range`,
/// called on the inclusive range `low..=high`. The generator panics on an
/// empty range, which `requires` leaves out; all that is claimed of the draw
/// is that it lies in the range.
#[verifier::external_body]
pub(crate) fn draw_between(low: i16, high: i16) -> (r: i16)
    requires
        low <= high,
    ensures
        low <= r <= high,
{
    rand::thread_rng().gen_range(low..=high)
}

/// One draw of a machine word through `rand::random`. Nothing is claimed of it.
#[verifier::external_body]
pub(crate) fn draw_word() -> (r: usize)
{
    rand::random::<usize>()
}

/// One draw of a byte: the low eight bits of a drawn machine word.
pub(crate) fn draw_byte() -> (r: u8)
{
    low_byte(draw_word())
}

/// The low eight bits of a machine word.
pub fn low_byte(word: usize) -> (byte: u8)
    ensures
        byte == word % 256,
{
    (word % 256) as u8
}

impl Dice {
    /// The dice can be thrown: either there is nothing to throw, or every die
    /// has a face and the largest total fits the machine integer.
    pub open spec fn throwable(&self) -> bool {
        self.number > 0 ==> self.die >= 1 && self.number * self.die <= i16::MAX
    }

    /// The smallest total a throw can give.
    pub open spec fn least(&self) -> int {
        if self.number > 0 {
            self.number as int
        } else {
            0
        }
    }

    /// The largest total a throw can give.
    pub open spec fn most(&self) -> int {
        if self.number > 0 {
            self.number * self.die
        } else {
            0
        }
    }

    /// `total` is a possible outcome of throwing these dice.
    pub open spec fn may_give(&self, total: int) -> bool {
        self.least() <= total <= self.most()
    }

    /// Decides whether the dice can be thrown.
    pub fn is_throwable(&self) -> (ok: bool)
        ensures
            ok == self.throwable(),
    {
        if self.number <= 0 {
            return true;
        }
        if self.die < 1 {
            return false;
        }
        let n: i32 = self.number as i32;
        let d: i32 = self.die as i32;
        assert(n * d <= 32767 * 32767) by (nonlinear_arith)
            requires
                0 < n <= 32767,
                1 <= d <= 32767,
        ;
        n * d <= 32767
    }

    /// Throws the dice and returns the sum of the faces shown.
    pub fn roll(&self) -> (result: i16)
        requires
            self.throwable(),
        ensures
            self.may_give(result as int),
    {
        let mut result: i16 = 0;
        let mut count: i16 = 0;
        while count < self.number
            invariant
                self.throwable(),
                0 <= count,
                self.number > 0 ==> count <= self.number,
                count <= result,
                result <= count * self.die,
                self.number <= 0 ==> result == 0,
            decreases self.number - count,
        {
            let face = draw_between(1, self.die);
            assert((count + 1) * self.die <= self.number * self.die) by (nonlinear_arith)
                requires
                    count + 1 <= self.number,
                    self.die >= 1,
            ;
            assert((count + 1) * self.die == count * self.die + self.die) by (nonlinear_arith);
            count += 1;
            result += face;
        }
        result
    }
}

} // verus!
