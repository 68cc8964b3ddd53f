use mud_core::mobile::Mobile;
use mud_core::text::{parse_digits, parse_short, parse_unsigned, same_text};

#[test]
fn save_load_mobile() {
    let mut c1 = Mobile::new_character(&"Test".to_string());
    c1.combat = 3;
    c1.steal = 1;
    c1.knowledge = 2;
    c1.perception = 4;
    c1.leatherwork = 5;
    c1.woodcraft = 6;
    let saved = c1.save_to_csv().unwrap();
    let mut c2 = Mobile::new_character(&"Test".to_string());
    assert!(c2.load_from_csv(&saved));
    assert_eq!(c1.strength, c2.strength);
    assert_eq!(c1.intelligence, c2.intelligence);
    assert_eq!(c1.wisdom, c2.wisdom);
    assert_eq!(c1.constitution, c2.constitution);
    assert_eq!(c1.charisma, c2.charisma);
    assert_eq!(c1.dexterity, c2.dexterity);
    assert_eq!(c1.combat, c2.combat);
    assert_eq!(c1.steal, c2.steal);
    assert_eq!(c1.knowledge, c2.knowledge);
    assert_eq!(c1.perception, c2.perception);
    assert_eq!(c1.leatherwork, c2.leatherwork);
    assert_eq!(c1.woodcraft, c2.woodcraft);
    assert_eq!(c1.get_id(), c2.get_id());
    let mut c3 = Mobile::new_character(&"Lord Tom".to_string());
    assert!(!c3.load_from_csv(b"name,Lord Tom\nstr,strong\n"));
}

#[test]
fn a_character_is_saved_as_keys_and_numbers() {
    let mut c = Mobile::new(&"Test".to_string());
    c.luck = 9;
    c.damage = 4;
    c.xp = -2;
    let text = String::from_utf8(c.save_to_csv().unwrap()).unwrap();
    let expected = format!(
        "name,Test\nid,{}\nstr,10\ndex,10\ncon,10\nchr,10\nint,10\nwis,10\nxp,-2\ndmg,4\nhp,10\ncombat,0\nsteal,0\nperception,0\nleatherwork,0\nwoodcraft,0\nknowledge,0\n",
        c.get_id()
    );
    assert_eq!(text, expected);
    let rows = c.records();
    assert_eq!(rows.len(), 17);
    assert_eq!(rows[0], vec!["name".to_string(), "Test".to_string()]);
    assert_eq!(rows[8], vec!["xp".to_string(), "-2".to_string()]);
}

#[test]
fn the_first_record_is_the_header() {
    let mut c = Mobile::new(&"Test".to_string());
    assert!(c.load_from_csv(b"str,18\ndex,17\n\"con\",\"16\"\nunknown,what\n"));
    assert_eq!(c.strength, 10);
    assert_eq!(c.dexterity, 17);
    assert_eq!(c.constitution, 16);
    assert!(c.load_from_csv(b""));
}

#[test]
fn loading_stops_at_the_first_bad_record() {
    let mut c = Mobile::new(&"Test".to_string());
    assert!(!c.load_from_csv(b"key,value\nstr,18\ndex,x\ncon,16\n"));
    assert_eq!(c.strength, 18);
    assert_eq!(c.dexterity, 10);
    assert_eq!(c.constitution, 10);
    let mut d = Mobile::new(&"Test".to_string());
    assert!(!d.load_from_csv(b"key,value\nstr,18\ndex,1,2\ncon,16\n"));
    assert_eq!(d.strength, 18);
    assert_eq!(d.constitution, 10);
    let mut e = Mobile::new(&"Test".to_string());
    assert!(!e.load_from_csv(b"key\nstr\n"));
    let rows = vec![
        Some(vec!["wis".to_string(), "+7".to_string()]),
        None,
        Some(vec!["chr".to_string(), "7".to_string()]),
    ];
    assert!(!e.load_rows(&rows));
    assert_eq!(e.wisdom, 7);
    assert_eq!(e.charisma, 10);
}

#[test]
fn records_are_taken_in_by_their_keys() {
    let mut c = Mobile::new(&"Test".to_string());
    let id = c.get_id();
    for (key, value) in [
        ("str", "1"),
        ("int", "2"),
        ("wis", "3"),
        ("dex", "4"),
        ("con", "5"),
        ("chr", "6"),
        ("xp", "7"),
        ("hp", "8"),
        ("combat", "9"),
        ("steal", "10"),
        ("knowledge", "11"),
        ("perception", "12"),
        ("leatherwork", "13"),
        ("woodcraft", "-14"),
        ("dmg", "99"),
        ("name", "Other"),
    ] {
        assert!(c.apply_record(key, value));
    }
    assert_eq!(
        (c.strength, c.intelligence, c.wisdom, c.dexterity, c.constitution, c.charisma),
        (1, 2, 3, 4, 5, 6)
    );
    assert_eq!((c.xp, c.max_damage, c.combat, c.steal), (7, 8, 9, 10));
    assert_eq!((c.knowledge, c.perception, c.leatherwork, c.woodcraft), (11, 12, 13, -14));
    assert_eq!(c.damage, 0);
    assert_eq!(c.name, "Test");
    assert_eq!(c.get_id(), id);
    assert!(!c.apply_record("xp", "40000"));
    assert!(!c.apply_record("xp", ""));
    assert!(!c.apply_record("id", "-1"));
    assert_eq!(c.xp, 7);
    assert!(c.apply_record("id", "340282366920938463463374607431768211455"));
    assert_eq!(c.get_id(), u128::MAX);
    assert!(!c.apply_record("id", "340282366920938463463374607431768211456"));
}

#[test]
fn file_names_are_in_lower_case() {
    let c = Mobile::new(&"Lord Tom".to_string());
    assert_eq!(c.file_name(), "lord tom.csv");
    assert_eq!(c.dead_file_name(), "lord tom.dead");
}

#[test]
fn numbers_are_read_digit_by_digit() {
    assert_eq!(parse_short("0"), Some(0));
    assert_eq!(parse_short("-32768"), Some(-32768));
    assert_eq!(parse_short("32767"), Some(32767));
    assert_eq!(parse_short("32768"), None);
    assert_eq!(parse_short("-32769"), None);
    assert_eq!(parse_short("+12"), Some(12));
    assert_eq!(parse_short("-"), None);
    assert_eq!(parse_short("1 2"), None);
    assert_eq!(parse_short("-0"), Some(0));
    assert_eq!(parse_unsigned("+0042"), Some(42));
    assert_eq!(parse_unsigned("-1"), None);
    assert_eq!(parse_digits("abc123def", 3, 6), Some(123));
    assert_eq!(parse_digits("abc123def", 3, 3), None);
    assert_eq!(parse_digits("abc123def", 2, 6), None);
    assert!(same_text("abc", "abc"));
    assert!(!same_text("abc", "abd"));
}
