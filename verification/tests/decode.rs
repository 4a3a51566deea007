use faebot::characters::CharacterSheet;

#[test]
fn character_from_code() {
    let code = "Name§This is a description.⏎⏎Trust me.§0§Highest of Concepts§Afoot§Grand Ambitions§Friends in Low Places§Unceasing Bookworm§Lorem ipsum dolor sit amet, consectetur adipiscing elit.⏎⏎Morbi in neque tincidunt leo facilisis facilisis a id lorem.§• This is a list.⏎• Of stunts.§Stubbed Toe§Languishing Life§Decimating Ennui§Empty Bank Account§2§2§§§§§Investigate§§§§Contacts§Notice§§§Lore§Resources§Empathy§§Will§Stealth§Craft§Rapport";
    let character_sheet = CharacterSheet::from_code(String::from(code));
    println!("{:#?}", character_sheet);
}

#[test]
fn character_from_blank_code() {
    let code = "";
    CharacterSheet::from_code(String::from(code));
}

#[test]
fn blank_code_decodes_to_defaults() {
    let sheet = CharacterSheet::from_code(String::new());
    assert_eq!(sheet.name, "");
    assert_eq!(sheet.description, "");
    assert_eq!(sheet.refresh, 0);
    assert_eq!(sheet.high_concept, "");
    assert_eq!(sheet.trouble, "");
    assert_eq!(sheet.aspect_three, "");
    assert_eq!(sheet.aspect_four, "");
    assert_eq!(sheet.aspect_five, "");
    assert_eq!(sheet.extras, "");
    assert_eq!(sheet.stunts, "");
    assert_eq!(sheet.consequence_one, "");
    assert_eq!(sheet.consequence_two, "");
    assert_eq!(sheet.consequence_three, "");
    assert_eq!(sheet.consequence_four, "");
    assert_eq!(sheet.physical_stress_boxes, 0);
    assert_eq!(sheet.mental_stress_boxes, 0);
    assert_eq!(sheet.skills.len(), 0);
}

#[test]
fn truncated_code_defaults_missing_segments() {
    let sheet = CharacterSheet::from_code(String::from("Alice§Bold explorer"));
    assert_eq!(sheet.name, "Alice");
    assert_eq!(sheet.description, "Bold explorer");
    assert_eq!(sheet.refresh, 0);
    assert_eq!(sheet.high_concept, "");
    assert_eq!(sheet.consequence_four, "");
    assert_eq!(sheet.physical_stress_boxes, 0);
    assert_eq!(sheet.mental_stress_boxes, 0);
    assert_eq!(sheet.skills.len(), 0);
}

#[test]
fn excess_segments_are_ignored() {
    let mut segments = vec![String::new(); 36];
    segments[0] = String::from("Alice");
    segments[35] = String::from("Stealth");
    segments.push(String::from("ExtraOne"));
    segments.push(String::from("ExtraTwo"));
    let sheet = CharacterSheet::from_code(segments.join("§"));
    assert_eq!(sheet.name, "Alice");
    assert_eq!(sheet.skills.len(), 1);
    assert_eq!(sheet.skills.get(&String::from("Stealth")), Some(1));
    assert_eq!(sheet.skills.get(&String::from("ExtraOne")), None);
    assert_eq!(sheet.skills.get(&String::from("ExtraTwo")), None);
}

#[test]
fn lone_superb_skill_rates_five() {
    let mut segments = vec![String::new(); 36];
    segments[16] = String::from("Fly");
    let sheet = CharacterSheet::from_code(segments.join("§"));
    assert_eq!(sheet.skills.len(), 1);
    assert_eq!(sheet.skills.get(&String::from("Fly")), Some(5));
}

#[test]
fn repeated_skill_takes_later_slot() {
    let mut segments = vec![String::new(); 36];
    segments[16] = String::from("Fly");
    segments[28] = String::from("Fly");
    let sheet = CharacterSheet::from_code(segments.join("§"));
    assert_eq!(sheet.skills.len(), 1);
    assert_eq!(sheet.skills.get(&String::from("Fly")), Some(2));
}

#[test]
fn sample_code_round_trip() {
    let segments = [
        "Name",
        "A description",
        "0",
        "High Concept",
        "Trouble",
        "A3",
        "A4",
        "A5",
        "Extras",
        "Stunts",
        "C1",
        "C2",
        "C3",
        "C4",
        "2",
        "2",
        "",
        "",
        "",
        "",
        "Investigate",
        "",
        "",
        "",
        "",
        "",
        "",
        "",
        "",
        "",
        "",
        "",
        "",
        "",
        "",
        "",
    ];
    let sheet = CharacterSheet::from_code(segments.join("§"));
    assert_eq!(sheet.name, "Name");
    assert_eq!(sheet.refresh, 0);
    assert_eq!(sheet.physical_stress_boxes, 2);
    assert_eq!(sheet.mental_stress_boxes, 2);
    assert_eq!(sheet.skills.get(&String::from("Investigate")), Some(4));
}

#[test]
fn non_numeric_fields_decode_to_zero() {
    let mut segments = vec![String::new(); 36];
    segments[2] = String::from("abc");
    segments[14] = String::from("12x");
    segments[15] = String::from("300");
    let sheet = CharacterSheet::from_code(segments.join("§"));
    assert_eq!(sheet.refresh, 0);
    assert_eq!(sheet.physical_stress_boxes, 0);
    assert_eq!(sheet.mental_stress_boxes, 0);
}

#[test]
fn numeric_fields_decode_their_value() {
    let mut segments = vec![String::new(); 36];
    segments[2] = String::from("3");
    segments[14] = String::from("+4");
    segments[15] = String::from("255");
    let sheet = CharacterSheet::from_code(segments.join("§"));
    assert_eq!(sheet.refresh, 3);
    assert_eq!(sheet.physical_stress_boxes, 4);
    assert_eq!(sheet.mental_stress_boxes, 255);
}
