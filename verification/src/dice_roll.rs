//! Dice: what a roll string asks for, and what the dice add up to.
//!
//! A roll string names a count of dice, the kind of die, and optionally how
//! many of the highest or lowest rolls are kept: `2d6`, `d20`, `4d6kh3`.

use vstd::prelude::*;

use crate::numbers::int_error_text;
use crate::numbers::numeral_value;
use crate::numbers::parse_usize;
use crate::numbers::reads_within;
use crate::random::random_between;
use crate::text::chars_of;
use crate::text::decimal;
use crate::text::decimal_string;
use crate::text::find_char;
use crate::text::first_index;
use crate::text::same_chars;
use crate::text::slice_of;
use crate::text::string_from_chars;

verus! {

/// The kinds of dice, by their number of sides.
#[derive(Clone, Copy, Debug, PartialEq, Eq, Structural)]
pub enum DiceType {
    D4,
    D6,
    D8,
    D10,
    D12,
    D20,
    D100,
}

/// The number of sides of a die.
pub open spec fn sides_of(dice_type: DiceType) -> u32 {
    match dice_type {
        DiceType::D4 => 4,
        DiceType::D6 => 6,
        DiceType::D8 => 8,
        DiceType::D10 => 10,
        DiceType::D12 => 12,
        DiceType::D20 => 20,
        DiceType::D100 => 100,
    }
}

/// The name of a kind of die.
pub open spec fn type_text(dice_type: DiceType) -> Seq<char> {
    match dice_type {
        DiceType::D4 => "d4"@,
        DiceType::D6 => "d6"@,
        DiceType::D8 => "d8"@,
        DiceType::D10 => "d10"@,
        DiceType::D12 => "d12"@,
        DiceType::D20 => "d20"@,
        DiceType::D100 => "d100"@,
    }
}

/// The kind of die that a lower-cased token names.
pub open spec fn type_of_token(lower: Seq<char>) -> Option<DiceType> {
    if lower == "4"@ {
        Some(DiceType::D4)
    } else if lower == "6"@ {
        Some(DiceType::D6)
    } else if lower == "8"@ {
        Some(DiceType::D8)
    } else if lower == "10"@ {
        Some(DiceType::D10)
    } else if lower == "12"@ {
        Some(DiceType::D12)
    } else if lower == "20"@ {
        Some(DiceType::D20)
    } else if lower == "100"@ {
        Some(DiceType::D100)
    } else {
        None
    }
}

impl DiceType {
    /// The number of sides.
    pub fn sides(&self) -> (n: u32)
        ensures
            n == sides_of(*self),
            1 <= n <= 100,
    {
        match self {
            Self::D4 => 4,
            Self::D6 => 6,
            Self::D8 => 8,
            Self::D10 => 10,
            Self::D12 => 12,
            Self::D20 => 20,
            Self::D100 => 100,
        }
    }

    /// The name of the kind.
    pub fn to_string(&self) -> (name: String)
        ensures
            name@ == type_text(*self),
    {
        match self {
            Self::D4 => String::from_str("d4"),
            Self::D6 => String::from_str("d6"),
            Self::D8 => String::from_str("d8"),
            Self::D10 => String::from_str("d10"),
            Self::D12 => String::from_str("d12"),
            Self::D20 => String::from_str("d20"),
            Self::D100 => String::from_str("d100"),
        }
    }

    /// The kind that a lower-cased token names.
    pub fn from_lowercase(lower: &str) -> (r: Option<Self>)
        ensures
            r == type_of_token(lower@),
    {
        let given: Vec<char> = chars_of(lower);
        if same_chars(&given, &chars_of("4")) {
            Some(Self::D4)
        } else if same_chars(&given, &chars_of("6")) {
            Some(Self::D6)
        } else if same_chars(&given, &chars_of("8")) {
            Some(Self::D8)
        } else if same_chars(&given, &chars_of("10")) {
            Some(Self::D10)
        } else if same_chars(&given, &chars_of("12")) {
            Some(Self::D12)
        } else if same_chars(&given, &chars_of("20")) {
            Some(Self::D20)
        } else if same_chars(&given, &chars_of("100")) {
            Some(Self::D100)
        } else {
            None
        }
    }
}

/// Which of the rolls count towards the total.
#[derive(Clone, Copy, Debug, PartialEq, Eq, Structural)]
pub enum RollProcessing {
    /// The given number of the highest rolls.
    KeepHighest(usize),
    /// The given number of the lowest rolls.
    KeepLowest(usize),
    /// Every roll.
    KeepAll,
}

/// What a roll is, as plain values.
pub struct DiceRollView {
    pub dice_type: DiceType,
    pub dice_count: usize,
    pub roll_processing: RollProcessing,
}

/// A count of dice of one kind, and which of their rolls are kept.
pub struct DiceRoll {
    dice_type: DiceType,
    dice_count: usize,
    roll_processing: RollProcessing,
}

impl View for DiceRoll {
    type V = DiceRollView;

    closed spec fn view(&self) -> DiceRollView {
        DiceRollView {
            dice_type: self.dice_type,
            dice_count: self.dice_count,
            roll_processing: self.roll_processing,
        }
    }
}

/// Why a roll string could not be parsed.
pub struct ParseDiceRollError(String);

impl View for ParseDiceRollError {
    type V = Seq<char>;

    closed spec fn view(&self) -> Seq<char> {
        self.0@
    }
}

impl ParseDiceRollError {
    /// The text of the error.
    pub fn to_string(&self) -> (text: String)
        ensures
            text@ == self@,
    {
        self.0.clone()
    }
}

impl From<std::num::ParseIntError> for ParseDiceRollError {
    fn from(value: std::num::ParseIntError) -> (e: Self) {
        Self(int_error_text(&value))
    }
}

impl vstd::std_specs::convert::FromSpecImpl<std::num::ParseIntError> for ParseDiceRollError {
    open spec fn obeys_from_spec() -> bool {
        false
    }

    open spec fn from_spec(value: std::num::ParseIntError) -> Self {
        arbitrary()
    }
}

/// Whether `s` is a numeral that a count can be read from.
pub open spec fn is_count(s: Seq<char>) -> bool {
    reads_within(s, usize::MAX as nat)
}

/// The count that the numeral `s` writes.
pub open spec fn count_of(s: Seq<char>) -> usize {
    numeral_value(s) as usize
}

/// The name for what `str::to_lowercase` returns on a string with the
/// characters `s`.
pub uninterp spec fn lowercase_of(s: Seq<char>) -> Seq<char>;

/// Trusted: `str::to_lowercase`. The result depends on the characters of `s`
/// alone.
#[verifier::external_body]
fn lowercase(s: &str) -> (lower: String)
    ensures
        lower@ == lowercase_of(s@),
{
    s.to_lowercase()
}

/// The parts of `s` before and after its first `c`, if it holds one.
pub open spec fn split_once(s: Seq<char>, c: char) -> Option<(Seq<char>, Seq<char>)> {
    let i = first_index(s, c);
    if 0 <= i < s.len() {
        Some((s.take(i), s.skip(i + 1)))
    } else {
        None
    }
}

/// The message for a roll string that does not have the shape of one.
pub open spec fn invalid_text(s: Seq<char>) -> Seq<char> {
    "Invalid dice string: "@ + s
}

/// The message for a roll string whose kind of die is not known.
pub open spec fn unknown_type_text(token: Seq<char>) -> Seq<char> {
    "Unknown dice type: "@ + token
}

/// What parsing a roll string gives.
pub enum DiceParse {
    /// The roll that the string asks for.
    Parsed(DiceRollView),
    /// The string is refused with this message.
    Refused(Seq<char>),
    /// This part of the string should be a count and is not.
    BadCount(Seq<char>),
}

/// Whether the keep clause of `s`, if it has one, can be cut into its letter
/// and its count: behind the first `k` stands a character of one byte.
pub open spec fn keep_clause_is_cut(s: Seq<char>) -> bool {
    match split_once(s, 'k') {
        Some((_, clause)) => clause.len() > 0 && (clause[0] as u32) < 128,
        None => true,
    }
}

/// What the part of a roll string before its keep clause gives, once the
/// keep clause has given `processing`.
pub open spec fn parse_dice_part(s: Seq<char>, dice: Seq<char>, processing: RollProcessing) -> DiceParse {
    match split_once(dice, 'd') {
        None => DiceParse::Refused(invalid_text(s)),
        Some((count, token)) => if count.len() > 0 && !is_count(count) {
            DiceParse::BadCount(count)
        } else {
            match type_of_token(lowercase_of(token)) {
                None => DiceParse::Refused(unknown_type_text(token)),
                Some(dice_type) => DiceParse::Parsed(
                    DiceRollView {
                        dice_type,
                        dice_count: if count.len() == 0 {
                            1
                        } else {
                            count_of(count)
                        },
                        roll_processing: processing,
                    },
                ),
            }
        },
    }
}

/// What a roll string asks for. The count of the keep clause is read first,
/// then its letter; then the count of dice, which is 1 where none is given;
/// then the kind of die.
pub open spec fn parse_dice(s: Seq<char>) -> DiceParse {
    match split_once(s, 'k') {
        None => parse_dice_part(s, s, RollProcessing::KeepAll),
        Some((dice, clause)) => {
            let count = clause.skip(1);
            if !is_count(count) {
                DiceParse::BadCount(count)
            } else if clause[0] == 'l' {
                parse_dice_part(s, dice, RollProcessing::KeepLowest(count_of(count)))
            } else if clause[0] == 'h' {
                parse_dice_part(s, dice, RollProcessing::KeepHighest(count_of(count)))
            } else {
                DiceParse::Refused(invalid_text(s))
            }
        },
    }
}

/// The text that describes a roll in English.
pub open spec fn english_text(roll: DiceRollView) -> Seq<char> {
    let dice = decimal(roll.dice_count as nat) + " "@ + type_text(roll.dice_type);
    match roll.roll_processing {
        RollProcessing::KeepHighest(n) => dice + ", keeping highest "@ + decimal(n as nat)
            + " rolls"@,
        RollProcessing::KeepLowest(n) => dice + ", keeping lowest "@ + decimal(n as nat) + " rolls"@,
        RollProcessing::KeepAll => dice,
    }
}

/// The error for a roll string that does not have the shape of one.
fn invalid(s: &str) -> (e: ParseDiceRollError)
    ensures
        e@ == invalid_text(s@),
{
    let mut message: String = String::from_str("Invalid dice string: ");
    message.append(s);
    ParseDiceRollError(message)
}

impl DiceRoll {
    /// Whether `parse` can be asked about `s`.
    pub fn can_parse(s: &str) -> (r: bool)
        ensures
            r == keep_clause_is_cut(s@),
    {
        let chars: Vec<char> = chars_of(s);
        proof {
            assert(chars@.skip(0) =~= chars@);
        }
        let k: usize = find_char(&chars, 'k', 0);
        if k < chars.len() {
            k + 1 < chars.len() && (chars[k + 1] as u32) < 128
        } else {
            true
        }
    }

    /// Parses the part of a roll string before its keep clause.
    fn parse_dice_part(s: &str, dice: &Vec<char>, processing: RollProcessing) -> (r: Result<
        Self,
        ParseDiceRollError,
    >)
        ensures
            match parse_dice_part(s@, dice@, processing) {
                DiceParse::Parsed(roll) => r matches Ok(d) && d@ == roll,
                DiceParse::Refused(message) => r matches Err(e) && e@ == message,
                DiceParse::BadCount(_) => r is Err,
            },
    {
        proof {
            assert(dice@.skip(0) =~= dice@);
        }
        let d: usize = find_char(dice, 'd', 0);
        if d >= dice.len() {
            return Err(invalid(s));
        }
        let count: Vec<char> = slice_of(dice, 0, d);
        let token: Vec<char> = slice_of(dice, d + 1, dice.len());
        proof {
            assert(count@ =~= dice@.take(d as int));
            assert(token@ =~= dice@.skip(d + 1));
        }
        let dice_count: usize = if count.len() == 0 {
            1
        } else {
            match parse_usize(string_from_chars(&count).as_str()) {
                Ok(n) => n,
                Err(e) => {
                    return Err(ParseDiceRollError::from(e));
                },
            }
        };
        let token_text: String = string_from_chars(&token);
        let lower: String = lowercase(token_text.as_str());
        match DiceType::from_lowercase(lower.as_str()) {
            Some(dice_type) => Ok(DiceRoll { dice_type, dice_count, roll_processing: processing }),
            None => {
                let mut message: String = String::from_str("Unknown dice type: ");
                message.append(token_text.as_str());
                Err(ParseDiceRollError(message))
            },
        }
    }

    /// Parses a roll string.
    pub fn parse(s: &str) -> (r: Result<Self, ParseDiceRollError>)
        requires
            keep_clause_is_cut(s@),
        ensures
            match parse_dice(s@) {
                DiceParse::Parsed(roll) => r matches Ok(d) && d@ == roll,
                DiceParse::Refused(message) => r matches Err(e) && e@ == message,
                DiceParse::BadCount(_) => r is Err,
            },
    {
        let chars: Vec<char> = chars_of(s);
        proof {
            assert(chars@.skip(0) =~= chars@);
        }
        let k: usize = find_char(&chars, 'k', 0);
        if k >= chars.len() {
            return Self::parse_dice_part(s, &chars, RollProcessing::KeepAll);
        }
        let dice: Vec<char> = slice_of(&chars, 0, k);
        let count: Vec<char> = slice_of(&chars, k + 2, chars.len());
        proof {
            assert(dice@ =~= chars@.take(k as int));
            assert(count@ =~= chars@.skip(k + 1).skip(1));
            assert(chars@.skip(k + 1)[0] == chars@[k + 1]);
        }
        let kept: usize = match parse_usize(string_from_chars(&count).as_str()) {
            Ok(n) => n,
            Err(e) => {
                return Err(ParseDiceRollError::from(e));
            },
        };
        let letter: char = chars[k + 1];
        if letter == 'l' {
            Self::parse_dice_part(s, &dice, RollProcessing::KeepLowest(kept))
        } else if letter == 'h' {
            Self::parse_dice_part(s, &dice, RollProcessing::KeepHighest(kept))
        } else {
            Err(invalid(s))
        }
    }

    /// The roll in English.
    #[must_use]
    pub fn to_english(&self) -> (text: String)
        ensures
            text@ == english_text(self@),
    {
        let mut text: String = decimal_string(self.dice_count);
        text.append(" ");
        text.append(self.dice_type.to_string().as_str());
        match self.roll_processing {
            RollProcessing::KeepHighest(n) => {
                text.append(", keeping highest ");
                text.append(decimal_string(n).as_str());
                text.append(" rolls");
            },
            RollProcessing::KeepLowest(n) => {
                text.append(", keeping lowest ");
                text.append(decimal_string(n).as_str());
                text.append(" rolls");
            },
            RollProcessing::KeepAll => {},
        }
        text
    }
}

/// The order in which rolls are sorted.
pub open spec fn at_most() -> spec_fn(u32, u32) -> bool {
    |a: u32, b: u32| a <= b
}

/// `rolls` from the lowest to the highest.
pub open spec fn ascending(rolls: Seq<u32>) -> Seq<u32> {
    rolls.sort_by(at_most())
}

/// How many of `count` rolls are kept.
pub open spec fn kept_count(count: nat, processing: RollProcessing) -> nat {
    match processing {
        RollProcessing::KeepHighest(n) => if n <= count {
            n as nat
        } else {
            count
        },
        RollProcessing::KeepLowest(n) => if n <= count {
            n as nat
        } else {
            count
        },
        RollProcessing::KeepAll => count,
    }
}

/// The rolls that are kept.
pub open spec fn kept_rolls(rolls: Seq<u32>, processing: RollProcessing) -> Seq<u32> {
    let n = kept_count(rolls.len(), processing);
    match processing {
        RollProcessing::KeepHighest(_) => ascending(rolls).skip(rolls.len() - n),
        RollProcessing::KeepLowest(_) => ascending(rolls).take(n as int),
        RollProcessing::KeepAll => rolls,
    }
}

/// The sum of `rolls`.
pub open spec fn sum(rolls: Seq<u32>) -> nat
    decreases rolls.len(),
{
    if rolls.len() == 0 {
        0
    } else {
        sum(rolls.drop_last()) + rolls.last() as nat
    }
}

/// What `rolls` add up to: the sum of those that are kept.
pub open spec fn total(rolls: Seq<u32>, processing: RollProcessing) -> nat {
    sum(kept_rolls(rolls, processing))
}

/// The most that a roll can add up to: every kept die shows its highest
/// side.
pub open spec fn highest_total(roll: DiceRollView) -> nat {
    kept_count(roll.dice_count as nat, roll.roll_processing) * sides_of(roll.dice_type) as nat
}

/// The sum of the first rolls is at most the sum of all.
pub proof fn lemma_sum_of_prefix(rolls: Seq<u32>, k: int)
    requires
        0 <= k <= rolls.len(),
    ensures
        sum(rolls.take(k)) <= sum(rolls),
    decreases rolls.len(),
{
    if k == rolls.len() {
        assert(rolls.take(k) =~= rolls);
    } else {
        lemma_sum_of_prefix(rolls.drop_last(), k);
        assert(rolls.drop_last().take(k) =~= rolls.take(k));
    }
}

/// Rolls that each lie between `low` and `high` add up to between `low` and
/// `high` times their number.
pub proof fn lemma_sum_bounds(rolls: Seq<u32>, low: u32, high: u32)
    requires
        forall|i: int| 0 <= i < rolls.len() ==> low <= #[trigger] rolls[i] <= high,
    ensures
        rolls.len() * low <= sum(rolls) <= rolls.len() * high,
    decreases rolls.len(),
{
    if rolls.len() > 0 {
        let rest = rolls.drop_last();
        assert forall|i: int| 0 <= i < rest.len() implies low <= #[trigger] rest[i] <= high by {
            assert(rest[i] == rolls[i]);
        }
        lemma_sum_bounds(rest, low, high);
        assert(rolls.len() * low == rest.len() * low + low) by (nonlinear_arith)
            requires
                rolls.len() == rest.len() + 1,
        ;
        assert(rolls.len() * high == rest.len() * high + high) by (nonlinear_arith)
            requires
                rolls.len() == rest.len() + 1,
        ;
    }
}

/// Sorted rolls that hold what `given` holds are `given` in ascending order.
pub proof fn lemma_sorted_is_ascending(given: Seq<u32>, sorted: Seq<u32>)
    requires
        sorted.to_multiset() == given.to_multiset(),
        forall|i: int, j: int| 0 <= i < j < sorted.len() ==> sorted[i] <= sorted[j],
    ensures
        sorted == ascending(given),
{
    let leq = at_most();
    assert(vstd::relations::total_ordering(leq)) by {
        assert(vstd::relations::reflexive(leq));
        assert(vstd::relations::antisymmetric(leq));
        assert(vstd::relations::transitive(leq));
        assert(vstd::relations::strongly_connected(leq));
    }
    given.lemma_sort_by_ensures(leq);
    assert(vstd::relations::sorted_by(sorted, leq));
    vstd::seq_lib::lemma_sorted_unique(sorted, ascending(given), leq);
}

/// The kept rolls are as many as `kept_count` says, and each of them is one
/// of the rolls.
pub proof fn lemma_kept_rolls(rolls: Seq<u32>, processing: RollProcessing, low: u32, high: u32)
    requires
        forall|i: int| 0 <= i < rolls.len() ==> low <= #[trigger] rolls[i] <= high,
    ensures
        kept_rolls(rolls, processing).len() == kept_count(rolls.len(), processing),
        forall|i: int|
            0 <= i < kept_rolls(rolls, processing).len() ==> low <= #[trigger] kept_rolls(
                rolls,
                processing,
            )[i] <= high,
{
    let leq = at_most();
    assert(vstd::relations::total_ordering(leq)) by {
        assert(vstd::relations::reflexive(leq));
        assert(vstd::relations::antisymmetric(leq));
        assert(vstd::relations::transitive(leq));
        assert(vstd::relations::strongly_connected(leq));
    }
    rolls.lemma_sort_by_ensures(leq);
    let sorted = ascending(rolls);
    rolls.to_multiset_ensures();
    sorted.to_multiset_ensures();
    assert(sorted.len() == rolls.len());
    assert forall|i: int| 0 <= i < sorted.len() implies low <= #[trigger] sorted[i] <= high by {
        assert(sorted.contains(sorted[i]));
        assert(rolls.contains(sorted[i]));
        let j = choose|j: int| 0 <= j < rolls.len() && rolls[j] == sorted[i];
        assert(low <= rolls[j] <= high);
    }
}

/// Trusted: `slice::sort_unstable` on `rolls`. It sorts in ascending order,
/// and the sorted rolls hold each number as often as the given ones.
#[verifier::external_body]
fn sort_rolls(rolls: &mut Vec<u32>)
    ensures
        final(rolls)@.to_multiset() == old(rolls)@.to_multiset(),
        forall|i: int, j: int|
            0 <= i < j < final(rolls)@.len() ==> final(rolls)@[i] <= final(rolls)@[j],
{
    rolls.sort_unstable();
}

/// The sum of the rolls from `from` up to, not including, `to`.
fn sum_range(rolls: &Vec<u32>, from: usize, to: usize) -> (t: u32)
    requires
        from <= to <= rolls.len(),
        sum(rolls@.subrange(from as int, to as int)) <= u32::MAX,
    ensures
        t == sum(rolls@.subrange(from as int, to as int)),
{
    let ghost range = rolls@.subrange(from as int, to as int);
    let mut t: u32 = 0;
    let mut i: usize = from;
    proof {
        assert(rolls@.subrange(from as int, from as int) =~= Seq::<u32>::empty());
    }
    while i < to
        invariant
            from <= i <= to <= rolls.len(),
            range == rolls@.subrange(from as int, to as int),
            sum(range) <= u32::MAX,
            t == sum(rolls@.subrange(from as int, i as int)),
        decreases to - i,
    {
        proof {
            let next = rolls@.subrange(from as int, i + 1);
            assert(next.drop_last() =~= rolls@.subrange(from as int, i as int));
            assert(next.last() == rolls@[i as int]);
            assert(range.take(i + 1 - from) =~= next);
            lemma_sum_of_prefix(range, i + 1 - from);
        }
        t = t + rolls[i];
        i += 1;
    }
    t
}

/// What `rolls` add up to under `processing`.
pub fn total_of(rolls: Vec<u32>, processing: RollProcessing) -> (t: u32)
    requires
        total(rolls@, processing) <= u32::MAX,
    ensures
        t == total(rolls@, processing),
{
    let mut rolls = rolls;
    let ghost given = rolls@;
    let len: usize = rolls.len();
    match processing {
        RollProcessing::KeepAll => {
            proof {
                assert(rolls@.subrange(0, len as int) =~= rolls@);
            }
            sum_range(&rolls, 0, len)
        },
        RollProcessing::KeepLowest(n) => {
            sort_rolls(&mut rolls);
            proof {
                lemma_sorted_is_ascending(given, rolls@);
                given.to_multiset_ensures();
                rolls@.to_multiset_ensures();
            }
            let kept: usize = if n <= len {
                n
            } else {
                len
            };
            proof {
                assert(rolls@.subrange(0, kept as int) =~= kept_rolls(given, processing));
            }
            sum_range(&rolls, 0, kept)
        },
        RollProcessing::KeepHighest(n) => {
            sort_rolls(&mut rolls);
            proof {
                lemma_sorted_is_ascending(given, rolls@);
                given.to_multiset_ensures();
                rolls@.to_multiset_ensures();
            }
            let kept: usize = if n <= len {
                n
            } else {
                len
            };
            proof {
                assert(rolls@.subrange(len - kept, len as int) =~= kept_rolls(given, processing));
            }
            sum_range(&rolls, len - kept, len)
        },
    }
}

impl DiceRoll {
    /// Whether the dice can be rolled: their highest total fits.
    pub fn can_roll(&self) -> (r: bool)
        ensures
            r == (highest_total(self@) <= u32::MAX),
    {
        let kept: usize = match self.roll_processing {
            RollProcessing::KeepHighest(n) => if n <= self.dice_count {
                n
            } else {
                self.dice_count
            },
            RollProcessing::KeepLowest(n) => if n <= self.dice_count {
                n
            } else {
                self.dice_count
            },
            RollProcessing::KeepAll => self.dice_count,
        };
        let sides: u32 = self.dice_type.sides();
        let limit: usize = (u32::MAX / sides) as usize;
        proof {
            assert(kept * sides <= u32::MAX <==> kept <= u32::MAX / sides) by (nonlinear_arith)
                requires
                    sides > 0,
            ;
        }
        kept <= limit
    }

    /// Whether `total` is less than the number of dice or more than all of
    /// them can add up to.
    pub fn is_out_of_reach(&self, total: u32) -> (r: bool)
        ensures
            r == (total < self@.dice_count || total > self@.dice_count * sides_of(
                self@.dice_type,
            )),
    {
        let sides: u128 = self.dice_type.sides() as u128;
        let count: u128 = self.dice_count as u128;
        let wanted: u128 = total as u128;
        proof {
            assert(count * sides <= 0xffff_ffff_ffff_ffff * 100) by (nonlinear_arith)
                requires
                    0 <= count <= 0xffff_ffff_ffff_ffff,
                    0 <= sides <= 100,
            ;
        }
        wanted < count || wanted > count * sides
    }

    /// Rolls the dice and adds up the rolls that are kept. Each kept die
    /// adds between 1 and its number of sides.
    #[must_use]
    pub fn roll(&self) -> (t: u32)
        requires
            highest_total(self@) <= u32::MAX,
        ensures
            kept_count(self@.dice_count as nat, self@.roll_processing) <= t <= highest_total(
                self@,
            ),
    {
        let sides: u32 = self.dice_type.sides();
        let mut rolls: Vec<u32> = Vec::new();
        let mut i: usize = 0;
        while i < self.dice_count
            invariant
                i <= self.dice_count,
                rolls.len() == i,
                1 <= sides,
                forall|j: int| 0 <= j < rolls.len() ==> 1 <= #[trigger] rolls@[j] <= sides,
            decreases self.dice_count - i,
        {
            rolls.push(random_between(1, sides));
            i += 1;
        }
        proof {
            lemma_kept_rolls(rolls@, self.roll_processing, 1, sides);
            lemma_sum_bounds(kept_rolls(rolls@, self.roll_processing), 1, sides);
        }
        total_of(rolls, self.roll_processing)
    }
}

} // verus!
