use faebot::characters::CharacterSheet;

#[test]
fn empty_skills_make_no_child_rows() {
    let sheet = CharacterSheet::from_code(String::new());
    let row = sheet.character_row(String::from("guild"), String::from("owner"));
    assert_eq!(row.guild_id, "guild");
    assert_eq!(row.owner_id, "owner");
    let rows = sheet.skill_rows(7);
    assert_eq!(rows.len(), 0);
}

#[test]
fn each_skill_makes_one_child_row() {
    let mut segments = vec![String::new(); 36];
    segments[16] = String::from("Fly");
    segments[20] = String::from("Investigate");
    segments[32] = String::from("Stealth");
    let sheet = CharacterSheet::from_code(segments.join("§"));
    let rows = sheet.skill_rows(42);
    assert_eq!(rows.len(), 3);
    for row in &rows {
        assert_eq!(row.character_id, 42);
    }
    let mut named: Vec<(String, u8)> =
        rows.iter().map(|r| (r.name.clone(), r.level)).collect();
    named.sort();
    assert_eq!(named[0], (String::from("Fly"), 5));
    assert_eq!(named[1], (String::from("Investigate"), 4));
    assert_eq!(named[2], (String::from("Stealth"), 1));
}

#[test]
fn parent_row_copies_every_field() {
    let segments = [
        "Name", "Desc", "4", "HC", "T", "A3", "A4", "A5", "E", "S", "C1", "C2", "C3", "C4", "3",
        "2",
    ];
    let sheet = CharacterSheet::from_code(segments.join("§"));
    let row = sheet.character_row(String::from("g1"), String::from("o1"));
    assert_eq!(row.guild_id, "g1");
    assert_eq!(row.owner_id, "o1");
    assert_eq!(row.name, "Name");
    assert_eq!(row.description, "Desc");
    assert_eq!(row.refresh, 4);
    assert_eq!(row.high_concept, "HC");
    assert_eq!(row.trouble, "T");
    assert_eq!(row.aspect_three, "A3");
    assert_eq!(row.aspect_four, "A4");
    assert_eq!(row.aspect_five, "A5");
    assert_eq!(row.extras, "E");
    assert_eq!(row.stunts, "S");
    assert_eq!(row.consequence_one, "C1");
    assert_eq!(row.consequence_two, "C2");
    assert_eq!(row.consequence_three, "C3");
    assert_eq!(row.consequence_four, "C4");
    assert_eq!(row.physical_capacity, 3);
    assert_eq!(row.mental_capacity, 2);
}

#[test]
fn overwritten_skill_keeps_one_row() {
    let mut segments = vec![String::new(); 36];
    segments[16] = String::from("Fly");
    segments[33] = String::from("Fly");
    let sheet = CharacterSheet::from_code(segments.join("§"));
    let rows = sheet.skill_rows(9);
    assert_eq!(rows.len(), 1);
    assert_eq!(rows[0].name, "Fly");
    assert_eq!(rows[0].level, 1);
    assert_eq!(rows[0].character_id, 9);
}
