use crate::mobile::{Mobile, MobileView};
use crate::text::{
    decimal, decimal_text, join, lowered, parse_short, parse_unsigned, same_text, short_of, text,
    to_lower, unsigned_of, unsigned_text,
};
use vstd::prelude::*;
use vstd::string::*;

verus! {

/// The error type of the `csv` crate. Nothing is known of a value of it.
#[verifier::external_type_specification]
#[verifier::external_body]
pub struct ExCsvError(csv::Error);

/// What the `csv` crate reads out of a text with its default settings: the
/// records after the first, which is taken for the header, each with its
/// fields, or `None` in the place of a record that it cannot read.
pub uninterp spec fn csv_rows(data: Seq<u8>) -> Seq<Option<Seq<Seq<char>>>>;

/// What the `csv` crate writes for one record through a writer of its own:
/// its fields, quoted where they need it, with the delimiters between them
/// and the terminator; `None` for a record for which the crate reports an
/// error.
pub uninterp spec fn csv_line(row: Seq<Seq<char>>) -> Option<Seq<u8>>;

/// The fields of a record as sequences of characters.
pub open spec fn fields_view(row: Seq<String>) -> Seq<Seq<char>> {
    row.map_values(|f: String| f@)
}

/// A record that was read, or `None` for one that could not be.
pub open spec fn read_view(row: Result<Vec<String>, csv::Error>) -> Option<Seq<Seq<char>>> {
    match row {
        Ok(fields) => Some(fields_view(fields@)),
        Err(_) => None,
    }
}

/// A record, or `None` for one that could not be read.
pub open spec fn row_view(row: Option<Vec<String>>) -> Option<Seq<Seq<char>>> {
    match row {
        Some(fields) => Some(fields_view(fields@)),
        None => None,
    }
}

/// `csv::Reader::from_reader` on the bytes and `csv::Reader::records` on
/// the reader, with every record that was read turned into its fields. The
/// records are a function of the bytes alone, and are given the name
/// `csv_rows`.
#[verifier::external_body]
pub(crate) fn read_rows(data: &[u8]) -> (rows: Vec<Result<Vec<String>, csv::Error>>)
    ensures
        rows@.map_values(|r: Result<Vec<String>, csv::Error>| read_view(r)) == csv_rows(data@),
{
    csv::Reader::from_reader(data)
        .records()
        .map(|r| r.map(|record| record.iter().map(|field| field.to_string()).collect()))
        .collect()
}

/// `csv::Writer::write_record` on a writer made by
/// `csv::Writer::from_writer` over the bytes, which `csv::Writer::into_inner`
/// hands back. The writer is new and writes into memory, so what it does
/// with the record is decided by the record alone, and is given the name
/// `csv_line`: when the crate reports no error the bytes are followed by
/// what it writes for the record, and the record is one for which it
/// reports an error when it reports one.
#[verifier::external_body]
pub(crate) fn append_row(bytes: Vec<u8>, row: &Vec<String>) -> (r: Result<Vec<u8>, csv::Error>)
    ensures
        match r {
            Ok(longer) => csv_line(fields_view(row@)) is Some && longer@ == bytes@ + csv_line(
                fields_view(row@),
            )->0,
            Err(_) => csv_line(fields_view(row@)) is None,
        },
{
    let mut writer = csv::Writer::from_writer(bytes);
    writer.write_record(row)?;
    writer.into_inner().map_err(|e| csv::Error::from(e.into_error()))
}

/// The bytes that the records are written as, one after the other; `None`
/// when there is a record that cannot be written.
pub open spec fn csv_text(rows: Seq<Seq<Seq<char>>>) -> Option<Seq<u8>>
    decreases rows.len(),
{
    if rows.len() == 0 {
        Some(Seq::empty())
    } else {
        match (csv_text(rows.drop_last()), csv_line(rows.last())) {
            (Some(before), Some(line)) => Some(before + line),
            _ => None,
        }
    }
}

/// Once a record cannot be written, no text that holds it can be.
pub proof fn lemma_unwritten_stays_unwritten(rows: Seq<Seq<Seq<char>>>, k: int)
    requires
        0 <= k <= rows.len(),
        csv_text(rows.take(k)) is None,
    ensures
        csv_text(rows) is None,
    decreases rows.len() - k,
{
    if k < rows.len() {
        assert(rows.take(k + 1).drop_last() =~= rows.take(k));
        lemma_unwritten_stays_unwritten(rows, k + 1);
    } else {
        assert(rows.take(k) =~= rows);
    }
}

/// A record of a key and a number.
pub open spec fn entry(key: Seq<char>, value: int) -> Seq<Seq<char>> {
    seq![key, decimal(value)]
}

/// The name of the file that keeps the character called `name`.
pub fn file_name_of(name: &str) -> (file: String)
    ensures
        file@ == lowered(name@ + ".csv"@),
{
    let plain = join(name, ".csv");
    to_lower(plain.as_str())
}

/// The name that the file of the character called `name` is given when the
/// character is dead.
pub fn dead_file_name_of(name: &str) -> (file: String)
    ensures
        file@ == lowered(name@ + ".dead"@),
{
    let plain = join(name, ".dead");
    to_lower(plain.as_str())
}

impl MobileView {
    /// The name of the file that keeps the character.
    pub open spec fn file_name(self) -> Seq<char> {
        lowered(self.name + ".csv"@)
    }

    /// The name that the file of a dead character is given.
    pub open spec fn dead_file_name(self) -> Seq<char> {
        lowered(self.name + ".dead"@)
    }

    /// The mobile with one record of a saved character taken in: the key
    /// names what the number is, and a key that names nothing is passed
    /// over. `None` when the key names something and the value is no number
    /// for it.
    pub open spec fn with_record(self, key: Seq<char>, value: Seq<char>) -> Option<MobileView> {
        if key == "id"@ {
            match unsigned_of(value) {
                Some(id) => Some(MobileView { id, ..self }),
                None => None,
            }
        } else if key == "str"@ || key == "int"@ || key == "wis"@ || key == "dex"@ || key
            == "con"@ || key == "chr"@ || key == "xp"@ || key == "hp"@ || key == "combat"@ || key
            == "steal"@ || key == "knowledge"@ || key == "perception"@ || key == "leatherwork"@
            || key == "woodcraft"@ {
            match short_of(value) {
                Some(v) => Some(
                    if key == "str"@ {
                        MobileView { strength: v, ..self }
                    } else if key == "int"@ {
                        MobileView { intelligence: v, ..self }
                    } else if key == "wis"@ {
                        MobileView { wisdom: v, ..self }
                    } else if key == "dex"@ {
                        MobileView { dexterity: v, ..self }
                    } else if key == "con"@ {
                        MobileView { constitution: v, ..self }
                    } else if key == "chr"@ {
                        MobileView { charisma: v, ..self }
                    } else if key == "xp"@ {
                        MobileView { xp: v, ..self }
                    } else if key == "hp"@ {
                        MobileView { max_damage: v, ..self }
                    } else if key == "combat"@ {
                        MobileView { combat: v, ..self }
                    } else if key == "steal"@ {
                        MobileView { steal: v, ..self }
                    } else if key == "knowledge"@ {
                        MobileView { knowledge: v, ..self }
                    } else if key == "perception"@ {
                        MobileView { perception: v, ..self }
                    } else if key == "leatherwork"@ {
                        MobileView { leatherwork: v, ..self }
                    } else {
                        MobileView { woodcraft: v, ..self }
                    },
                ),
                None => None,
            }
        } else {
            Some(self)
        }
    }

    /// The mobile after the records of a saved character were taken in one
    /// after the other, and whether all of them could be: the taking in
    /// stops at the first record that could not be read, has fewer than two
    /// fields, or gives no number for its key.
    pub open spec fn loaded(self, rows: Seq<Option<Seq<Seq<char>>>>) -> (MobileView, bool)
        decreases rows.len(),
    {
        if rows.len() == 0 {
            (self, true)
        } else {
            let (m, ok) = self.loaded(rows.drop_last());
            if !ok {
                (m, false)
            } else {
                match rows.last() {
                    Some(fields) => if fields.len() < 2 {
                        (m, false)
                    } else {
                        match m.with_record(fields[0], fields[1]) {
                            Some(m2) => (m2, true),
                            None => (m, false),
                        }
                    },
                    None => (m, false),
                }
            }
        }
    }

    /// The records that a character is saved as.
    pub open spec fn records(self) -> Seq<Seq<Seq<char>>> {
        seq![
            seq!["name"@, self.name],
            entry("id"@, self.id as int),
            entry("str"@, self.strength as int),
            entry("dex"@, self.dexterity as int),
            entry("con"@, self.constitution as int),
            entry("chr"@, self.charisma as int),
            entry("int"@, self.intelligence as int),
            entry("wis"@, self.wisdom as int),
            entry("xp"@, self.xp as int),
            entry("dmg"@, self.damage as int),
            entry("hp"@, self.max_damage as int),
            entry("combat"@, self.combat as int),
            entry("steal"@, self.steal as int),
            entry("perception"@, self.perception as int),
            entry("leatherwork"@, self.leatherwork as int),
            entry("woodcraft"@, self.woodcraft as int),
            entry("knowledge"@, self.knowledge as int),
        ]
    }
}

/// A record of a key and a number.
fn entry_of(key: &str, value: i16) -> (row: Vec<String>)
    ensures
        fields_view(row@) == entry(key@, value as int),
{
    let mut row: Vec<String> = Vec::new();
    row.push(text(key));
    row.push(decimal_text(value as i128));
    proof {
        assert(fields_view(row@) =~= entry(key@, value as int));
    }
    row
}

impl Mobile {
    /// The name of the file that keeps the character.
    pub fn file_name(&self) -> (name: String)
        ensures
            name@ == self@.file_name(),
    {
        file_name_of(self.name.as_str())
    }

    /// The name that the file of a dead character is given.
    pub fn dead_file_name(&self) -> (name: String)
        ensures
            name@ == self@.dead_file_name(),
    {
        dead_file_name_of(self.name.as_str())
    }

    /// Takes in one record of a saved character. Returns whether it could
    /// be taken in; if not, nothing has changed.
    pub fn apply_record(&mut self, key: &str, value: &str) -> (ok: bool)
        ensures
            match old(self)@.with_record(key@, value@) {
                Some(m) => ok && final(self)@ == m,
                None => !ok && final(self)@ == old(self)@,
            },
    {
        if same_text(key, "id") {
            return match parse_unsigned(value) {
                Some(id) => {
                    self.id = id;
                    true
                },
                None => false,
            };
        }
        let known = same_text(key, "str") || same_text(key, "int") || same_text(key, "wis")
            || same_text(key, "dex") || same_text(key, "con") || same_text(key, "chr")
            || same_text(key, "xp") || same_text(key, "hp") || same_text(key, "combat")
            || same_text(key, "steal") || same_text(key, "knowledge") || same_text(
            key,
            "perception",
        ) || same_text(key, "leatherwork") || same_text(key, "woodcraft");
        if !known {
            return true;
        }
        let v = match parse_short(value) {
            Some(v) => v,
            None => {
                return false;
            },
        };
        if same_text(key, "str") {
            self.strength = v;
        } else if same_text(key, "int") {
            self.intelligence = v;
        } else if same_text(key, "wis") {
            self.wisdom = v;
        } else if same_text(key, "dex") {
            self.dexterity = v;
        } else if same_text(key, "con") {
            self.constitution = v;
        } else if same_text(key, "chr") {
            self.charisma = v;
        } else if same_text(key, "xp") {
            self.xp = v;
        } else if same_text(key, "hp") {
            self.max_damage = v;
        } else if same_text(key, "combat") {
            self.combat = v;
        } else if same_text(key, "steal") {
            self.steal = v;
        } else if same_text(key, "knowledge") {
            self.knowledge = v;
        } else if same_text(key, "perception") {
            self.perception = v;
        } else if same_text(key, "leatherwork") {
            self.leatherwork = v;
        } else {
            self.woodcraft = v;
        }
        true
    }

    /// Takes in the records of a saved character, one after the other, up
    /// to the first that cannot be taken in. Returns whether all were.
    pub fn load_rows(&mut self, rows: &Vec<Option<Vec<String>>>) -> (ok: bool)
        ensures
            (final(self)@, ok) == old(self)@.loaded(
                rows@.map_values(|r: Option<Vec<String>>| row_view(r)),
            ),
    {
        let ghost all = rows@.map_values(|r: Option<Vec<String>>| row_view(r));
        let mut i: usize = 0;
        while i < rows.len()
            invariant
                i <= rows.len(),
                all == rows@.map_values(|r: Option<Vec<String>>| row_view(r)),
                (self@, true) == old(self)@.loaded(all.take(i as int)),
            decreases rows.len() - i,
        {
            proof {
                let next = all.take(i + 1);
                assert(next.drop_last() =~= all.take(i as int));
                assert(next.last() == row_view(rows@[i as int]));
            }
            let mut ok = false;
            match &rows[i] {
                Some(fields) => {
                    if fields.len() >= 2 {
                        assert(fields_view(fields@)[0] == fields@[0]@);
                        assert(fields_view(fields@)[1] == fields@[1]@);
                        ok = self.apply_record(fields[0].as_str(), fields[1].as_str());
                    }
                },
                None => {},
            }
            if !ok {
                proof {
                    lemma_loading_stays_failed(old(self)@, all, i + 1);
                }
                return false;
            }
            i += 1;
        }
        proof {
            assert(all.take(i as int) =~= all);
        }
        true
    }

    /// Takes in a saved character from the text of its file. Returns
    /// whether every record could be taken in.
    pub fn load_from_csv(&mut self, data: &[u8]) -> (ok: bool)
        ensures
            (final(self)@, ok) == old(self)@.loaded(csv_rows(data@)),
    {
        let read = read_rows(data);
        let mut rows: Vec<Option<Vec<String>>> = Vec::new();
        let mut read = read;
        let ghost all = csv_rows(data@);
        let ghost mut done: int = 0;
        while read.len() > 0
            invariant
                0 <= done <= all.len(),
                read@.map_values(|r: Result<Vec<String>, csv::Error>| read_view(r)) == all.skip(
                    done,
                ),
                rows@.map_values(|r: Option<Vec<String>>| row_view(r)) == all.take(done),
            decreases read.len(),
        {
            let ghost waiting = read@.map_values(|r: Result<Vec<String>, csv::Error>| read_view(r));
            let ghost had = rows@.map_values(|r: Option<Vec<String>>| row_view(r));
            proof {
                assert(waiting.len() == read@.len());
                assert(all.skip(done).len() == all.len() - done);
            }
            let row = read.remove(0);
            proof {
                assert(read_view(row) == waiting[0]);
                assert(waiting[0] == all.skip(done)[0]);
                let left = read@.map_values(|r: Result<Vec<String>, csv::Error>| read_view(r));
                assert forall|j: int| 0 <= j < left.len() implies #[trigger] left[j] == all.skip(
                    done + 1,
                )[j] by {
                    assert(waiting[j + 1] == all.skip(done)[j + 1]);
                }
                assert(left =~= all.skip(done + 1));
            }
            let plain = match row {
                Ok(fields) => Some(fields),
                Err(_) => None,
            };
            rows.push(plain);
            proof {
                assert(rows@.map_values(|r: Option<Vec<String>>| row_view(r)) =~= had.push(
                    all[done],
                ));
                assert(had.push(all[done]) =~= all.take(done + 1));
                done = done + 1;
            }
        }
        proof {
            assert(all.skip(done).len() == 0);
            assert(all.take(done) =~= all);
        }
        self.load_rows(&rows)
    }

    /// The records that the character is saved as.
    pub fn records(&self) -> (rows: Vec<Vec<String>>)
        ensures
            rows@.map_values(|r: Vec<String>| fields_view(r@)) == self@.records(),
    {
        let mut rows: Vec<Vec<String>> = Vec::new();
        let mut name: Vec<String> = Vec::new();
        name.push(text("name"));
        name.push(self.name.clone());
        let mut id: Vec<String> = Vec::new();
        id.push(text("id"));
        id.push(unsigned_text(self.id));
        proof {
            assert(fields_view(name@) =~= seq!["name"@, self@.name]);
            assert(fields_view(id@) =~= entry("id"@, self@.id as int));
        }
        rows.push(name);
        rows.push(id);
        rows.push(entry_of("str", self.strength));
        rows.push(entry_of("dex", self.dexterity));
        rows.push(entry_of("con", self.constitution));
        rows.push(entry_of("chr", self.charisma));
        rows.push(entry_of("int", self.intelligence));
        rows.push(entry_of("wis", self.wisdom));
        rows.push(entry_of("xp", self.xp));
        rows.push(entry_of("dmg", self.damage));
        rows.push(entry_of("hp", self.max_hit_points()));
        rows.push(entry_of("combat", self.combat));
        rows.push(entry_of("steal", self.steal));
        rows.push(entry_of("perception", self.perception));
        rows.push(entry_of("leatherwork", self.leatherwork));
        rows.push(entry_of("woodcraft", self.woodcraft));
        rows.push(entry_of("knowledge", self.knowledge));
        proof {
            assert(rows@.map_values(|r: Vec<String>| fields_view(r@)) =~= self@.records());
        }
        rows
    }

    /// The text of the file that keeps the character: its records, written
    /// one after the other. `None` exactly when there is a record that
    /// cannot be written.
    pub fn save_to_csv(&self) -> (text: Option<Vec<u8>>)
        ensures
            match text {
                Some(bytes) => csv_text(self@.records()) == Some(bytes@),
                None => csv_text(self@.records()) is None,
            },
    {
        let rows = self.records();
        let ghost all = rows@.map_values(|r: Vec<String>| fields_view(r@));
        let mut bytes: Vec<u8> = Vec::new();
        let mut i: usize = 0;
        while i < rows.len()
            invariant
                i <= rows.len(),
                all == rows@.map_values(|r: Vec<String>| fields_view(r@)),
                all == self@.records(),
                csv_text(all.take(i as int)) == Some(bytes@),
            decreases rows.len() - i,
        {
            proof {
                let next = all.take(i + 1);
                assert(next.drop_last() =~= all.take(i as int));
                assert(next.last() == fields_view(rows@[i as int]@));
            }
            match append_row(bytes, &rows[i]) {
                Ok(longer) => {
                    bytes = longer;
                },
                Err(_) => {
                    proof {
                        lemma_unwritten_stays_unwritten(all, i + 1);
                    }
                    return None;
                },
            }
            i += 1;
        }
        proof {
            assert(all.take(i as int) =~= all);
        }
        Some(bytes)
    }
}

/// Once the taking in of records has failed, it has failed for any more of
/// them, and the mobile stays as it was at the failure.
pub proof fn lemma_loading_stays_failed(
    m: MobileView,
    rows: Seq<Option<Seq<Seq<char>>>>,
    k: int,
)
    requires
        0 <= k <= rows.len(),
        !m.loaded(rows.take(k)).1,
    ensures
        m.loaded(rows) == m.loaded(rows.take(k)),
    decreases rows.len() - k,
{
    if k < rows.len() {
        assert(rows.take(k + 1).drop_last() =~= rows.take(k));
        lemma_loading_stays_failed(m, rows, k + 1);
    } else {
        assert(rows.take(k) =~= rows);
    }
}

} // verus!
