//! Fudge-dice rolling and its textual presentation: each die shows one of
//! three faces, a roll of several dice totals them, and a total is named by
//! the adjective ladder.

use vstd::prelude::*;
use vstd::string::*;

verus! {

/// One rolled die and the running total of a roll.
#[derive(Debug)]
pub struct FudgeResult {
    pub total: i8,
    pub results: Vec<String>,
}

/// Whether `face` is one of the three faces a fudge die can show.
pub open spec fn is_fudge_face(face: Seq<char>) -> bool {
    face == "+"@ || face == "-"@ || face == "○"@
}

/// What a shown face adds to the total: +1, -1 or 0.
pub open spec fn face_value(face: Seq<char>) -> int {
    if face == "+"@ {
        1
    } else if face == "-"@ {
        -1
    } else {
        0
    }
}

/// The total of a sequence of shown faces.
pub open spec fn faces_total(faces: Seq<Seq<char>>) -> int
    decreases faces.len(),
{
    if faces.len() == 0 {
        0
    } else {
        faces_total(faces.drop_last()) + face_value(faces.last())
    }
}

/// The face texts joined with " , " between them.
pub open spec fn spec_merged(faces: Seq<Seq<char>>) -> Seq<char>
    decreases faces.len(),
{
    if faces.len() == 0 {
        Seq::empty()
    } else if faces.len() == 1 {
        faces[0]
    } else {
        spec_merged(faces.drop_last()) + " , "@ + faces.last()
    }
}

/// The adjective ladder: the name that a total result is read as.
pub open spec fn spec_ladder(total: int) -> Seq<char> {
    if total == 8 {
        "Legendary"@
    } else if total == 7 {
        "Epic"@
    } else if total == 6 {
        "Fantastic"@
    } else if total == 5 {
        "Superb"@
    } else if total == 4 {
        "Great"@
    } else if total == 3 {
        "Good"@
    } else if total == 2 {
        "Fair"@
    } else if total == 1 {
        "Average"@
    } else if total == 0 {
        "Mediocre"@
    } else if total == -1 {
        "Poor"@
    } else if total == -2 {
        "Terrible"@
    } else {
        "Holy !@#$%"@
    }
}

impl FudgeResult {
    /// The shown faces joined with " , " between them, in roll order.
    pub fn merged_results(&self) -> (r: String)
        ensures
            r@ == spec_merged(self.results.deep_view()),
    {
        let ghost faces = self.results.deep_view();
        let mut result_text = String::new();
        let n = self.results.len();
        let mut i: usize = 0;
        while i < n
            invariant
                n == self.results@.len(),
                faces == self.results.deep_view(),
                0 <= i <= n,
                result_text@ == spec_merged(faces.take(i as int)),
            decreases n - i,
        {
            proof {
                assert(faces.take(i + 1).drop_last() =~= faces.take(i as int));
                assert(faces.take(i + 1).last() == faces[i as int]);
            }
            if i > 0 {
                result_text.append(" , ");
            }
            result_text.append(self.results[i].as_str());
            i = i + 1;
        }
        proof {
            assert(faces.take(n as int) =~= faces);
        }
        result_text
    }

    /// The ladder name of this roll's total once `stat_value` is added.
    pub fn ladder_text(&self, stat_value: i8) -> (r: String)
        requires
            i8::MIN <= self.total + stat_value <= i8::MAX,
        ensures
            r@ == spec_ladder(self.total + stat_value),
    {
        let current_total = self.total + stat_value;
        let ladder_text = if current_total == 8 {
            "Legendary"
        } else if current_total == 7 {
            "Epic"
        } else if current_total == 6 {
            "Fantastic"
        } else if current_total == 5 {
            "Superb"
        } else if current_total == 4 {
            "Great"
        } else if current_total == 3 {
            "Good"
        } else if current_total == 2 {
            "Fair"
        } else if current_total == 1 {
            "Average"
        } else if current_total == 0 {
            "Mediocre"
        } else if current_total == -1 {
            "Poor"
        } else if current_total == -2 {
            "Terrible"
        } else {
            "Holy !@#$%"
        };
        ladder_text.to_owned()
    }
}

/// Relies on rand::Rng::gen_range on the thread-local generator: for a
/// non-empty range it returns a value inside the range; on an empty range it
/// panics, which the precondition rules out.
#[verifier::external_body]
fn random_below(bound: usize) -> (r: usize)
    requires
        bound > 0,
    ensures
        r < bound,
{
    rand::Rng::gen_range(&mut rand::thread_rng(), 0..bound)
}

/// Roll one fudge die: two of the six sides show "+", two show "-" and two
/// show a blank.
pub fn roll_fudge_dice<'a>() -> (r: &'a str)
    ensures
        is_fudge_face(r@),
{
    let side = random_below(6);
    if side == 0 || side == 3 {
        "+"
    } else if side == 1 || side == 4 {
        "-"
    } else {
        "○"
    }
}

/// Roll `how_many` fudge dice: one face per die, in roll order, with the
/// total of their values.
pub fn roll_multiple_fudge(how_many: u8) -> (roll: FudgeResult)
    requires
        how_many <= 127,
    ensures
        roll.results@.len() == how_many,
        forall|i: int|
            0 <= i < how_many ==> is_fudge_face(#[trigger] roll.results.deep_view()[i]),
        roll.total == faces_total(roll.results.deep_view()),
        -(how_many as int) <= roll.total <= how_many as int,
{
    let mut current_total: i8 = 0;
    let mut results: Vec<String> = Vec::new();
    let mut number: u8 = 0;
    while number < how_many
        invariant
            how_many <= 127,
            0 <= number <= how_many,
            results@.len() == number,
            forall|i: int|
                0 <= i < number ==> is_fudge_face(#[trigger] results.deep_view()[i]),
            current_total == faces_total(results.deep_view()),
            -(number as int) <= current_total <= number as int,
        decreases how_many - number,
    {
        let ghost faces = results.deep_view();
        let current_result = roll_fudge_dice();
        proof {
            reveal_strlit("+");
            reveal_strlit("-");
            reveal_strlit("○");
        }
        let face = current_result.get_char(0);
        if face == '+' {
            current_total = current_total + 1;
        } else if face == '-' {
            current_total = current_total - 1;
        }
        results.push(current_result.to_owned());
        number = number + 1;
        proof {
            assert(results.deep_view() =~= faces.push(current_result@));
            assert(results.deep_view().drop_last() =~= faces);
        }
    }
    FudgeResult { total: current_total, results }
}

/// Cap a stat bonus so that adding or subtracting `dice_amount` to a roll's
/// total can never leave the ladder's machine range: values too close to the
/// ends are pulled in, all others pass unchanged.
pub fn capped_stat_value(stat_value: i8, dice_amount: i8) -> (r: i8)
    requires
        dice_amount >= 0,
    ensures
        i8::MIN <= r - dice_amount,
        r + dice_amount <= i8::MAX,
        i8::MIN + dice_amount <= stat_value <= i8::MAX - dice_amount ==> r == stat_value,
        stat_value < i8::MIN + dice_amount ==> r == i8::MIN + dice_amount,
        stat_value > i8::MAX - dice_amount ==> r == i8::MAX - dice_amount,
{
    if stat_value < i8::MIN + dice_amount {
        i8::MIN + dice_amount
    } else if stat_value > i8::MAX - dice_amount {
        i8::MAX - dice_amount
    } else {
        stat_value
    }
}

} // verus!
