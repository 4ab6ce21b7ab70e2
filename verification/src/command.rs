//! The commands the rover understands and their JSON text.
//!
//! Every command is a JSON object whose field `T` holds the command's tag.
//! A drive command also holds the speed of the left and of the right wheels
//! in `L` and `R`; a request for the inertial readings holds its tag and
//! nothing else. The text is compact: no space stands anywhere in it.

use crate::numeral::{is_digit, is_number, lemma_number_alphabet};
use crate::speed::{Numeral, Speed};
use vstd::prelude::*;
use vstd::string::*;

verus! {

/// The tag of a drive command.
pub const DRIVE_TAG: u8 = 1;

/// The tag of a request for the inertial readings.
pub const TELEMETRY_TAG: u8 = 126;

/// The character that writes the digit `d`.
pub open spec fn digit_char(d: nat) -> char
    recommends
        d < 10,
{
    (d + 48) as char
}

/// The decimal spelling of `n`, without leading zeros.
pub open spec fn decimal(n: nat) -> Seq<char>
    decreases n,
{
    if n < 10 {
        seq![digit_char(n)]
    } else {
        decimal(n / 10).push(digit_char(n % 10))
    }
}

/// The JSON text of a drive command.
pub open spec fn drive_json(tag: nat, left: Seq<char>, right: Seq<char>) -> Seq<char> {
    "{\"T\":"@ + decimal(tag) + ",\"L\":"@ + left + ",\"R\":"@ + right + "}"@
}

/// The JSON text of a command that has a tag and nothing else.
pub open spec fn bare_json(tag: nat) -> Seq<char> {
    "{\"T\":"@ + decimal(tag) + "}"@
}

/// A drive command: a tag and the speed of either side.
pub struct Drive {
    pub command: u8,
    pub left: Numeral,
    pub right: Numeral,
}

impl Drive {
    /// Both speeds are well-formed numerals.
    pub open spec fn wf(self) -> bool {
        self.left.wf() && self.right.wf()
    }

    /// The text that goes on the wire.
    pub open spec fn json(self) -> Seq<char> {
        drive_json(self.command as nat, self.left.text(), self.right.text())
    }
}

/// The digit `d`, written.
fn digit_text(d: u8) -> (r: &'static str)
    requires
        d < 10,
    ensures
        r@ == seq![digit_char(d as nat)],
{
    proof {
        reveal_strlit("0");
        reveal_strlit("1");
        reveal_strlit("2");
        reveal_strlit("3");
        reveal_strlit("4");
        reveal_strlit("5");
        reveal_strlit("6");
        reveal_strlit("7");
        reveal_strlit("8");
        reveal_strlit("9");
    }
    let r = match d {
        0 => "0",
        1 => "1",
        2 => "2",
        3 => "3",
        4 => "4",
        5 => "5",
        6 => "6",
        7 => "7",
        8 => "8",
        _ => "9",
    };
    assert(r@ =~= seq![digit_char(d as nat)]);
    r
}

/// Writes `n` in decimal.
pub fn decimal_text(n: u8) -> (r: String)
    ensures
        r@ == decimal(n as nat),
{
    let mut out = String::new();
    if n >= 100 {
        out.append(digit_text(n / 100));
    }
    if n >= 10 {
        out.append(digit_text((n / 10) % 10));
    }
    out.append(digit_text(n % 10));
    proof {
        reveal_with_fuel(decimal, 3);
        assert(out@ =~= decimal(n as nat));
    }
    out
}

/// Writes a drive command as JSON.
fn drive_text(command: u8, left: &Speed, right: &Speed) -> (text: String)
    ensures
        text@ == drive_json(command as nat, left@.text(), right@.text()),
{
    let mut text = String::from_str("{\"T\":");
    text.append(decimal_text(command).as_str());
    text.append(",\"L\":");
    text.append(left.text().as_str());
    text.append(",\"R\":");
    text.append(right.text().as_str());
    text.append("}");
    text
}

/// What can be sent to the rover: anything with a JSON text.
pub trait RobotCommand {
    /// The text that goes on the wire.
    spec fn json(&self) -> Seq<char>;

    /// Writes the command as JSON.
    fn to_json(&self) -> (text: String)
        ensures
            text@ == self.json(),
    ;
}

/// Drives straight ahead: both sides at the speed asked for.
pub struct GoForward {
    command: u8,
    left_speed: Speed,
    right_speed: Speed,
}

impl View for GoForward {
    type V = Drive;

    closed spec fn view(&self) -> Drive {
        Drive { command: self.command, left: self.left_speed@, right: self.right_speed@ }
    }
}

impl GoForward {
    /// The command that drives both sides at `speed`.
    pub fn new(speed: Speed) -> (r: Self)
        ensures
            r@ == (Drive { command: DRIVE_TAG, left: speed@, right: speed@ }),
            r@.wf(),
    {
        Self { command: DRIVE_TAG, left_speed: speed.clone(), right_speed: speed }
    }
}

impl RobotCommand for GoForward {
    open spec fn json(&self) -> Seq<char> {
        self@.json()
    }

    fn to_json(&self) -> (text: String) {
        drive_text(self.command, &self.left_speed, &self.right_speed)
    }
}

/// Drives straight back: both sides at the speed asked for, sign changed.
pub struct GoBackward {
    command: u8,
    left_speed: Speed,
    right_speed: Speed,
}

impl View for GoBackward {
    type V = Drive;

    closed spec fn view(&self) -> Drive {
        Drive { command: self.command, left: self.left_speed@, right: self.right_speed@ }
    }
}

impl GoBackward {
    /// The command that drives both sides at `speed`, sign changed.
    pub fn new(speed: Speed) -> (r: Self)
        ensures
            r@ == (Drive {
                command: DRIVE_TAG,
                left: speed@.negated(),
                right: speed@.negated(),
            }),
            r@.wf(),
    {
        Self { command: DRIVE_TAG, left_speed: speed.negated(), right_speed: speed.negated() }
    }
}

impl RobotCommand for GoBackward {
    open spec fn json(&self) -> Seq<char> {
        self@.json()
    }

    fn to_json(&self) -> (text: String) {
        drive_text(self.command, &self.left_speed, &self.right_speed)
    }
}

/// Asks the rover for its inertial readings. Its view is its tag.
pub struct IMUData {
    command: u8,
}

impl View for IMUData {
    type V = u8;

    closed spec fn view(&self) -> u8 {
        self.command
    }
}

impl IMUData {
    /// The request for the inertial readings.
    pub fn new() -> (r: Self)
        ensures
            r@ == TELEMETRY_TAG,
    {
        Self { command: TELEMETRY_TAG }
    }
}

impl RobotCommand for IMUData {
    open spec fn json(&self) -> Seq<char> {
        bare_json(self@ as nat)
    }

    fn to_json(&self) -> (text: String) {
        let mut text = String::from_str("{\"T\":");
        text.append(decimal_text(self.command).as_str());
        text.append("}");
        text
    }
}

/// A decimal spelling is never empty and holds digits only.
pub proof fn lemma_decimal_is_digits(n: nat)
    ensures
        decimal(n).len() >= 1,
        forall|k: int| 0 <= k < decimal(n).len() ==> is_digit(#[trigger] decimal(n)[k]),
    decreases n,
{
    if n >= 10 {
        lemma_decimal_is_digits(n / 10);
    }
}

/// Numbers that are spelled alike are equal.
pub proof fn lemma_decimal_tells_numbers_apart(a: nat, b: nat)
    requires
        decimal(a) == decimal(b),
    ensures
        a == b,
    decreases a,
{
    lemma_decimal_is_digits(a / 10);
    lemma_decimal_is_digits(b / 10);
    if a < 10 && b < 10 {
        assert(decimal(a)[0] == digit_char(a) && digit_char(a) as int == a + 48);
        assert(decimal(b)[0] == digit_char(b) && digit_char(b) as int == b + 48);
    } else if a >= 10 && b >= 10 {
        assert(decimal(a).drop_last() =~= decimal(a / 10));
        assert(decimal(b).drop_last() =~= decimal(b / 10));
        lemma_decimal_tells_numbers_apart(a / 10, b / 10);
        assert(decimal(a).last() == digit_char(a % 10));
        assert(decimal(b).last() == digit_char(b % 10));
    } else if a < 10 {
        assert(decimal(a).len() == 1);
        assert(decimal(b).len() == decimal(b / 10).len() + 1);
    } else {
        assert(decimal(b).len() == 1);
        assert(decimal(a).len() == decimal(a / 10).len() + 1);
    }
}

/// No command that has only a tag is written as a drive command is: the two
/// texts differ where the shorter tag ends.
pub proof fn lemma_bare_is_no_drive(tag: nat, drive_tag: nat, left: Seq<char>, right: Seq<char>)
    ensures
        bare_json(tag) != drive_json(drive_tag, left, right),
{
    let a = decimal(tag);
    let b = decimal(drive_tag);
    let bare = bare_json(tag);
    let drive = drive_json(drive_tag, left, right);
    lemma_decimal_is_digits(tag);
    lemma_decimal_is_digits(drive_tag);
    reveal_strlit("{\"T\":");
    reveal_strlit("}");
    reveal_strlit(",\"L\":");
    if a.len() <= b.len() {
        let at = (a.len() + 5) as int;
        assert(bare[at] == '}');
        if a.len() < b.len() {
            assert(drive[at] == b[a.len() as int]);
        } else {
            assert(drive[at] == ',');
        }
    } else {
        let at = (b.len() + 5) as int;
        assert(drive[at] == ',');
        assert(bare[at] == a[b.len() as int]);
    }
}

/// Where two texts are equal, and each is a part free of `mark` followed by
/// a part that starts with `mark`, the parts are equal one by one.
proof fn lemma_split_at_mark(
    head: Seq<char>,
    tail: Seq<char>,
    other_head: Seq<char>,
    other_tail: Seq<char>,
    mark: char,
)
    requires
        head + tail == other_head + other_tail,
        forall|k: int| 0 <= k < head.len() ==> #[trigger] head[k] != mark,
        forall|k: int| 0 <= k < other_head.len() ==> #[trigger] other_head[k] != mark,
        tail.len() > 0 && tail[0] == mark,
        other_tail.len() > 0 && other_tail[0] == mark,
    ensures
        head == other_head,
        tail == other_tail,
{
    let whole = head + tail;
    let other = other_head + other_tail;
    if head.len() < other_head.len() {
        assert(whole[head.len() as int] == mark);
        assert(other[head.len() as int] == other_head[head.len() as int]);
    } else if other_head.len() < head.len() {
        assert(other[other_head.len() as int] == mark);
        assert(whole[other_head.len() as int] == head[other_head.len() as int]);
    }
    assert(head =~= whole.take(head.len() as int));
    assert(other_head =~= other.take(head.len() as int));
    assert(tail =~= whole.skip(head.len() as int));
    assert(other_tail =~= other.skip(head.len() as int));
}

/// What follows a common start is equal where the wholes are.
proof fn lemma_cancel_start(start: Seq<char>, rest: Seq<char>, other_rest: Seq<char>)
    requires
        start + rest == start + other_rest,
    ensures
        rest == other_rest,
{
    assert(rest =~= (start + rest).skip(start.len() as int));
    assert(other_rest =~= (start + other_rest).skip(start.len() as int));
}

/// Seven parts in a row are the first part and the row of the other six.
proof fn lemma_row_of_seven(
    a: Seq<char>,
    b: Seq<char>,
    c: Seq<char>,
    d: Seq<char>,
    e: Seq<char>,
    f: Seq<char>,
    g: Seq<char>,
)
    ensures
        a + b + c + d + e + f + g == a + (b + (c + (d + (e + (f + g))))),
{
    assert(a + b + c + d + e + f + g =~= a + (b + (c + (d + (e + (f + g))))));
}

/// Three fields between fixed texts can be read back where no field holds
/// the character that ends it: the first two end at a comma, the third at a
/// closing brace.
proof fn lemma_fields_read_back(
    opening: Seq<char>,
    first: Seq<char>,
    then: Seq<char>,
    second: Seq<char>,
    next: Seq<char>,
    third: Seq<char>,
    closing: Seq<char>,
    other_first: Seq<char>,
    other_second: Seq<char>,
    other_third: Seq<char>,
)
    requires
        opening + first + then + second + next + third + closing == opening + other_first + then
            + other_second + next + other_third + closing,
        then.len() > 0 && then[0] == ',',
        next.len() > 0 && next[0] == ',',
        closing.len() > 0 && closing[0] == '}',
        forall|k: int| 0 <= k < first.len() ==> #[trigger] first[k] != ',',
        forall|k: int| 0 <= k < other_first.len() ==> #[trigger] other_first[k] != ',',
        forall|k: int| 0 <= k < second.len() ==> #[trigger] second[k] != ',',
        forall|k: int| 0 <= k < other_second.len() ==> #[trigger] other_second[k] != ',',
        forall|k: int| 0 <= k < third.len() ==> #[trigger] third[k] != '}',
        forall|k: int| 0 <= k < other_third.len() ==> #[trigger] other_third[k] != '}',
    ensures
        first == other_first,
        second == other_second,
        third == other_third,
{
    let after_second = next + (third + closing);
    let other_after_second = next + (other_third + closing);
    let after_first = then + (second + after_second);
    let other_after_first = then + (other_second + other_after_second);
    lemma_row_of_seven(opening, first, then, second, next, third, closing);
    lemma_row_of_seven(opening, other_first, then, other_second, next, other_third, closing);
    lemma_cancel_start(opening, first + after_first, other_first + other_after_first);
    lemma_split_at_mark(first, after_first, other_first, other_after_first, ',');
    lemma_cancel_start(then, second + after_second, other_second + other_after_second);
    lemma_split_at_mark(second, after_second, other_second, other_after_second, ',');
    lemma_cancel_start(next, third + closing, other_third + closing);
    lemma_split_at_mark(third, closing, other_third, closing, '}');
}

/// The text of a drive command tells which command it is: two drive
/// commands that are written alike have the same tag and the same speeds.
pub proof fn lemma_drive_json_tells_commands_apart(
    tag: nat,
    left: Seq<char>,
    right: Seq<char>,
    other_tag: nat,
    other_left: Seq<char>,
    other_right: Seq<char>,
)
    requires
        is_number(left),
        is_number(right),
        is_number(other_left),
        is_number(other_right),
        drive_json(tag, left, right) == drive_json(other_tag, other_left, other_right),
    ensures
        tag == other_tag,
        left == other_left,
        right == other_right,
{
    lemma_decimal_is_digits(tag);
    lemma_decimal_is_digits(other_tag);
    lemma_number_alphabet(left);
    lemma_number_alphabet(right);
    lemma_number_alphabet(other_left);
    lemma_number_alphabet(other_right);
    assert(",\"L\":"@.len() > 0 && ",\"L\":"@[0] == ',') by {
        reveal_strlit(",\"L\":");
    }
    assert(",\"R\":"@.len() > 0 && ",\"R\":"@[0] == ',') by {
        reveal_strlit(",\"R\":");
    }
    assert("}"@.len() > 0 && "}"@[0] == '}') by {
        reveal_strlit("}");
    }
    lemma_fields_read_back(
        "{\"T\":"@,
        decimal(tag),
        ",\"L\":"@,
        left,
        ",\"R\":"@,
        right,
        "}"@,
        decimal(other_tag),
        other_left,
        other_right,
    );
    lemma_decimal_tells_numbers_apart(tag, other_tag);
}

} // verus!
