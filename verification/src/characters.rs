//! The character-sheet aggregate: positional decoding of a raw delimited
//! code into the fully-defaulted aggregate, and the mapping of the aggregate
//! onto one parent row plus one child row per skill.

use vstd::prelude::*;

use crate::codec::{
    get_or_blank_str, parse_u8_or_zero, segment, spec_split, split_code, u8_or_zero,
};
use crate::skills::SkillMap;

verus! {

/// The decoded aggregate. Every textual field is always present (absence in
/// the source decodes to the empty string) and every numeric field is always
/// a value (a failed parse decodes to 0).
#[derive(Debug)]
pub struct CharacterSheet {
    pub name: String,
    pub description: String,
    pub refresh: u8,
    pub high_concept: String,
    pub trouble: String,
    pub aspect_three: String,
    pub aspect_four: String,
    pub aspect_five: String,
    pub skills: SkillMap,
    pub extras: String,
    pub stunts: String,
    pub consequence_one: String,
    pub consequence_two: String,
    pub consequence_three: String,
    pub consequence_four: String,
    pub physical_stress_boxes: u8,
    pub mental_stress_boxes: u8,
}

/// The rating that a skill slot confers: slots 16-19 are "Superb" (5),
/// 20-23 "Great" (4), 24-27 "Good" (3), 28-31 "Fair" (2), 32-35 "Average" (1).
pub open spec fn tier_rating(slot: int) -> u8 {
    if slot < 20 {
        5
    } else if slot < 24 {
        4
    } else if slot < 28 {
        3
    } else if slot < 32 {
        2
    } else {
        1
    }
}

/// The skills mapping that slots 16 through `slot` of input `s` denote:
/// empty slots contribute nothing, and a repeated name is overwritten by the
/// later slot.
pub open spec fn skills_through(s: Seq<char>, slot: int) -> Map<Seq<char>, u8>
    decreases slot,
{
    if slot < 16 {
        Map::empty()
    } else {
        let prev = skills_through(s, slot - 1);
        let text = segment(s, slot);
        if text.len() == 0 {
            prev
        } else {
            prev.insert(text, tier_rating(slot))
        }
    }
}

/// The skills mapping decoded from input `s`: all twenty slots, 16 to 35.
pub open spec fn spec_skills(s: Seq<char>) -> Map<Seq<char>, u8> {
    skills_through(s, 35)
}

fn slot_rating(slot: usize) -> (r: u8)
    requires
        16 <= slot < 36,
    ensures
        r == tier_rating(slot as int),
{
    if slot < 20 {
        5
    } else if slot < 24 {
        4
    } else if slot < 28 {
        3
    } else if slot < 32 {
        2
    } else {
        1
    }
}

impl CharacterSheet {
    /// What it means for this aggregate to be the decoding of raw input `s`:
    /// each scalar field is its fixed segment (numeric ones through the total
    /// parse), and the skills mapping is the one the twenty slots denote.
    pub open spec fn decodes(self, s: Seq<char>) -> bool {
        &&& self.name@ == segment(s, 0)
        &&& self.description@ == segment(s, 1)
        &&& self.refresh == u8_or_zero(segment(s, 2))
        &&& self.high_concept@ == segment(s, 3)
        &&& self.trouble@ == segment(s, 4)
        &&& self.aspect_three@ == segment(s, 5)
        &&& self.aspect_four@ == segment(s, 6)
        &&& self.aspect_five@ == segment(s, 7)
        &&& self.extras@ == segment(s, 8)
        &&& self.stunts@ == segment(s, 9)
        &&& self.consequence_one@ == segment(s, 10)
        &&& self.consequence_two@ == segment(s, 11)
        &&& self.consequence_three@ == segment(s, 12)
        &&& self.consequence_four@ == segment(s, 13)
        &&& self.physical_stress_boxes == u8_or_zero(segment(s, 14))
        &&& self.mental_stress_boxes == u8_or_zero(segment(s, 15))
        &&& self.skills.wf()
        &&& self.skills@ == spec_skills(s)
    }

    /// Decode a raw character code. Total: every input, however malformed,
    /// truncated or overlong, yields a fully-populated aggregate.
    pub fn from_code(code_string: String) -> (sheet: CharacterSheet)
        ensures
            sheet.decodes(code_string@),
    {
        let character_code = split_code(code_string.as_str());
        let ghost raw = code_string@;

        let character_name = get_or_blank_str(&character_code, 0);
        let character_description = get_or_blank_str(&character_code, 1);
        let character_refresh = get_or_blank_str(&character_code, 2);
        let character_high_concept = get_or_blank_str(&character_code, 3);
        let character_trouble = get_or_blank_str(&character_code, 4);
        let character_aspect_three = get_or_blank_str(&character_code, 5);
        let character_aspect_four = get_or_blank_str(&character_code, 6);
        let character_aspect_five = get_or_blank_str(&character_code, 7);
        let character_extras = get_or_blank_str(&character_code, 8);
        let character_stunts = get_or_blank_str(&character_code, 9);
        let character_consequence_one = get_or_blank_str(&character_code, 10);
        let character_consequence_two = get_or_blank_str(&character_code, 11);
        let character_consequence_three = get_or_blank_str(&character_code, 12);
        let character_consequence_four = get_or_blank_str(&character_code, 13);
        let character_physical_stress_capacity = get_or_blank_str(&character_code, 14);
        let character_mental_stress_capacity = get_or_blank_str(&character_code, 15);

        let converted_refresh: u8 = parse_u8_or_zero(character_refresh);
        let converted_physical_stress: u8 = parse_u8_or_zero(character_physical_stress_capacity);
        let converted_mental_stress: u8 = parse_u8_or_zero(character_mental_stress_capacity);

        let mut character_skills = SkillMap::new();
        let mut slot: usize = 16;
        while slot < 36
            invariant
                16 <= slot <= 36,
                character_skills.wf(),
                character_skills@ == skills_through(raw, slot - 1),
                character_code.deep_view() == spec_split(raw),
            decreases 36 - slot,
        {
            let text = get_or_blank_str(&character_code, slot);
            if !text.is_empty() {
                let rating = slot_rating(slot);
                character_skills.insert(text.to_owned(), rating);
            }
            slot = slot + 1;
        }

        CharacterSheet {
            name: character_name.to_owned(),
            description: character_description.to_owned(),
            refresh: converted_refresh,
            high_concept: character_high_concept.to_owned(),
            trouble: character_trouble.to_owned(),
            aspect_three: character_aspect_three.to_owned(),
            aspect_four: character_aspect_four.to_owned(),
            aspect_five: character_aspect_five.to_owned(),
            skills: character_skills,
            extras: character_extras.to_owned(),
            stunts: character_stunts.to_owned(),
            consequence_one: character_consequence_one.to_owned(),
            consequence_two: character_consequence_two.to_owned(),
            consequence_three: character_consequence_three.to_owned(),
            consequence_four: character_consequence_four.to_owned(),
            physical_stress_boxes: converted_physical_stress,
            mental_stress_boxes: converted_mental_stress,
        }
    }
}

/// The parent row that persisting a sheet writes: tenant and owner
/// identifiers plus all sixteen scalar fields, one row per sheet.
#[derive(Debug)]
pub struct CharacterRow {
    pub guild_id: String,
    pub owner_id: String,
    pub name: String,
    pub description: String,
    pub refresh: u8,
    pub high_concept: String,
    pub trouble: String,
    pub aspect_three: String,
    pub aspect_four: String,
    pub aspect_five: String,
    pub extras: String,
    pub stunts: String,
    pub consequence_one: String,
    pub consequence_two: String,
    pub consequence_three: String,
    pub consequence_four: String,
    pub physical_capacity: u8,
    pub mental_capacity: u8,
}

/// One child row per non-empty skill: the parent's generated identifier,
/// the rating and the skill name.
#[derive(Debug)]
pub struct SkillRow {
    pub character_id: i64,
    pub level: u8,
    pub name: String,
}

impl CharacterSheet {
    /// The single parent row that persisting this sheet under the given
    /// tenant (guild) and owner writes.
    pub fn character_row(&self, guild_id: String, owner_id: String) -> (row: CharacterRow)
        ensures
            row.guild_id == guild_id,
            row.owner_id == owner_id,
            row.name == self.name,
            row.description == self.description,
            row.refresh == self.refresh,
            row.high_concept == self.high_concept,
            row.trouble == self.trouble,
            row.aspect_three == self.aspect_three,
            row.aspect_four == self.aspect_four,
            row.aspect_five == self.aspect_five,
            row.extras == self.extras,
            row.stunts == self.stunts,
            row.consequence_one == self.consequence_one,
            row.consequence_two == self.consequence_two,
            row.consequence_three == self.consequence_three,
            row.consequence_four == self.consequence_four,
            row.physical_capacity == self.physical_stress_boxes,
            row.mental_capacity == self.mental_stress_boxes,
    {
        CharacterRow {
            guild_id,
            owner_id,
            name: self.name.clone(),
            description: self.description.clone(),
            refresh: self.refresh,
            high_concept: self.high_concept.clone(),
            trouble: self.trouble.clone(),
            aspect_three: self.aspect_three.clone(),
            aspect_four: self.aspect_four.clone(),
            aspect_five: self.aspect_five.clone(),
            extras: self.extras.clone(),
            stunts: self.stunts.clone(),
            consequence_one: self.consequence_one.clone(),
            consequence_two: self.consequence_two.clone(),
            consequence_three: self.consequence_three.clone(),
            consequence_four: self.consequence_four.clone(),
            physical_capacity: self.physical_stress_boxes,
            mental_capacity: self.mental_stress_boxes,
        }
    }

    /// The child rows that persisting this sheet writes once the parent row
    /// has been given identifier `character_id`: exactly one row per skill in
    /// the mapping, each referencing that identifier and carrying the
    /// mapping's rating for its name. Their order is not part of the
    /// persisted meaning.
    pub fn skill_rows(&self, character_id: i64) -> (rows: Vec<SkillRow>)
        requires
            self.skills.wf(),
        ensures
            rows@.len() == self.skills@.dom().len(),
            forall|i: int|
                0 <= i < rows@.len() ==> #[trigger] rows@[i].character_id == character_id,
            forall|i: int|
                0 <= i < rows@.len() ==> self.skills@.contains_key(#[trigger] rows@[i].name@)
                    && rows@[i].level == self.skills@[rows@[i].name@],
            forall|i: int, j: int|
                0 <= i < j < rows@.len() ==> #[trigger] rows@[i].name@ != #[trigger] rows@[j].name@,
            forall|k: Seq<char>|
                #[trigger] self.skills@.contains_key(k) ==> exists|i: int|
                    0 <= i < rows@.len() && #[trigger] rows@[i].name@ == k,
    {
        let n = self.skills.len();
        let mut rows: Vec<SkillRow> = Vec::new();
        let mut i: usize = 0;
        while i < n
            invariant
                n == self.skills.entries@.len(),
                self.skills.wf(),
                0 <= i <= n,
                rows@.len() == i,
                forall|j: int|
                    0 <= j < i ==> #[trigger] rows@[j] == (SkillRow {
                        character_id,
                        level: self.skills.entries@[j].rating,
                        name: rows@[j].name,
                    }) && rows@[j].name@ == self.skills.entries@[j].name@,
            decreases n - i,
        {
            let entry = &self.skills.entries[i];
            rows.push(SkillRow { character_id, level: entry.rating, name: entry.name.clone() });
            i = i + 1;
        }
        proof {
            self.skills.lemma_len_is_dom_len();
            assert forall|i: int|
                0 <= i < rows@.len() implies self.skills@.contains_key(#[trigger] rows@[i].name@)
                && rows@[i].level == self.skills@[rows@[i].name@] by {
                crate::skills::lemma_entries_value(self.skills.entries@, i);
            }
            assert forall|k: Seq<char>| #[trigger] self.skills@.contains_key(k) implies exists|
                i: int,
            | 0 <= i < rows@.len() && #[trigger] rows@[i].name@ == k by {
                crate::skills::lemma_map_of_entries_key(self.skills.entries@, k);
                let i = choose|i: int|
                    0 <= i < self.skills.entries@.len() && #[trigger] self.skills.entries@[i].name@
                        == k;
                assert(rows@[i].name@ == k);
            }
        }
        rows
    }
}

proof fn lemma_skills_through_bounds(s: Seq<char>, slot: int)
    ensures
        forall|k: Seq<char>| #[trigger]
            skills_through(s, slot).contains_key(k) ==> 1 <= skills_through(s, slot)[k] <= 5,
    decreases slot,
{
    if slot >= 16 {
        lemma_skills_through_bounds(s, slot - 1);
        assert forall|k: Seq<char>| #[trigger]
            skills_through(s, slot).contains_key(k) implies 1 <= skills_through(s, slot)[k]
            <= 5 by {
            if segment(s, slot).len() == 0 || k != segment(s, slot) {
                assert(skills_through(s, slot - 1).contains_key(k));
            }
        }
    }
}

/// Decoding never produces a rating outside 1 through 5: every entry of the
/// skills mapping of any input carries one of the five tier ratings.
pub proof fn lemma_ratings_bounded(s: Seq<char>)
    ensures
        forall|k: Seq<char>| #[trigger]
            spec_skills(s).contains_key(k) ==> 1 <= spec_skills(s)[k] <= 5,
{
    lemma_skills_through_bounds(s, 35);
}

/// Decoding the empty input yields empty text for every segment, 0 for every
/// numeric field, and an empty skills mapping.
pub proof fn lemma_decode_empty()
    ensures
        forall|i: int| #[trigger] segment(Seq::<char>::empty(), i) == Seq::<char>::empty(),
        u8_or_zero(Seq::<char>::empty()) == 0,
        spec_skills(Seq::<char>::empty()) =~= Map::<Seq<char>, u8>::empty(),
{
    let s = Seq::<char>::empty();
    assert(spec_split(s) == seq![Seq::<char>::empty()]);
    assert forall|i: int| #[trigger] segment(s, i) == Seq::<char>::empty() by {
        if i == 0 {
            assert(segment(s, 0) == seq![Seq::<char>::empty()][0]);
        }
    }
    assert(crate::codec::digits_part(s).len() == 0);
    lemma_skills_through_empty(s, 35);
}

proof fn lemma_skills_through_empty(s: Seq<char>, slot: int)
    requires
        forall|i: int| #[trigger] segment(s, i) == Seq::<char>::empty(),
    ensures
        skills_through(s, slot) == Map::<Seq<char>, u8>::empty(),
    decreases slot,
{
    if slot >= 16 {
        lemma_skills_through_empty(s, slot - 1);
    }
}

proof fn lemma_skills_through_same_segments(s1: Seq<char>, s2: Seq<char>, slot: int)
    requires
        slot <= 35,
        forall|i: int| 0 <= i <= 35 ==> #[trigger] segment(s1, i) == segment(s2, i),
    ensures
        skills_through(s1, slot) == skills_through(s2, slot),
    decreases slot,
{
    if slot >= 16 {
        lemma_skills_through_same_segments(s1, s2, slot - 1);
    }
}

/// Decoding reads only segments 0 through 35: two inputs that agree on those
/// thirty-six segments decode to the same aggregate, so extra trailing
/// segments are ignored and, beyond the end of a short input, missing
/// segments count as empty text.
pub proof fn lemma_only_first_segments_matter(s1: Seq<char>, s2: Seq<char>, sheet: CharacterSheet)
    requires
        forall|i: int| 0 <= i <= 35 ==> #[trigger] segment(s1, i) == segment(s2, i),
    ensures
        sheet.decodes(s1) <==> sheet.decodes(s2),
{
    lemma_skills_through_same_segments(s1, s2, 35);
}

/// A missing segment is empty text: at any index at or beyond the number of
/// delimiter-separated pieces of the input, decoding sees the empty string.
pub proof fn lemma_missing_segment_blank(s: Seq<char>, i: int)
    requires
        i >= spec_split(s).len(),
    ensures
        segment(s, i) == Seq::<char>::empty(),
{
}

/// Last write wins: when a non-empty name's last occurrence among the skill
/// slots is slot `j`, the decoded mapping rates that name by slot `j`'s tier.
pub proof fn lemma_later_slot_wins(s: Seq<char>, name: Seq<char>, j: int)
    requires
        16 <= j <= 35,
        segment(s, j) == name,
        name.len() > 0,
        forall|k: int| j < k <= 35 ==> #[trigger] segment(s, k) != name,
    ensures
        spec_skills(s).contains_key(name),
        spec_skills(s)[name] == tier_rating(j),
{
    lemma_skills_through_wins(s, name, j, 35);
}

proof fn lemma_skills_through_wins(s: Seq<char>, name: Seq<char>, j: int, slot: int)
    requires
        16 <= j <= slot,
        segment(s, j) == name,
        name.len() > 0,
        forall|k: int| j < k <= slot ==> #[trigger] segment(s, k) != name,
    ensures
        skills_through(s, slot).contains_key(name),
        skills_through(s, slot)[name] == tier_rating(j),
    decreases slot,
{
    if slot > j {
        lemma_skills_through_wins(s, name, j, slot - 1);
    }
}

/// A name that sits in the first "Superb" slot and in no other slot is rated
/// exactly 5 in the decoded mapping.
pub proof fn lemma_superb_slot_rating(s: Seq<char>, name: Seq<char>)
    requires
        segment(s, 16) == name,
        name.len() > 0,
        forall|k: int| 17 <= k <= 35 ==> #[trigger] segment(s, k) != name,
    ensures
        spec_skills(s).contains_key(name),
        spec_skills(s)[name] == 5,
{
    lemma_later_slot_wins(s, name, 16);
}

} // verus!
