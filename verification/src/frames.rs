use crate::key::{
    all_digits, characters, decimal, digit, digits_value, is_digit, lemma_decimal, push_decimal,
    unsigned_part,
};
use crate::vector::Vector3;
use vstd::prelude::*;

verus! {

/// The frame number that `text` stands for: decimal digits, at least one,
/// after at most one `+`, and small enough to be counted.
pub open spec fn frame_number_of(text: Seq<char>) -> Option<usize> {
    let digits = unsigned_part(text);
    if digits.len() > 0 && all_digits(digits) && digits_value(digits) <= usize::MAX {
        Some(digits_value(digits) as usize)
    } else {
        None
    }
}

/// The frame number that `text` stands for, if it stands for one.
pub fn parse_frame_number(text: &str) -> (r: Option<usize>)
    ensures
        r == frame_number_of(text@),
{
    let chars = characters(text);
    let n = chars.len();
    let signed = n > 0 && chars[0] == '+';
    let first: usize = if signed {
        1
    } else {
        0
    };
    let ghost digits = chars@.subrange(first as int, n as int);
    if first == n {
        return None;
    }
    let mut value: usize = 0;
    let mut overflow = false;
    let mut i = first;
    while i < n
        invariant
            first <= i <= n,
            n == chars.len(),
            chars@ == text@,
            digits == chars@.subrange(first as int, n as int),
            digits == unsigned_part(text@),
            forall|j: int| 0 <= j < i - first ==> is_digit(#[trigger] digits[j]),
            !overflow ==> value == digits_value(digits.take(i - first)),
            overflow ==> digits_value(digits.take(i - first)) > usize::MAX,
        decreases n - i,
    {
        let d = match digit(chars[i]) {
            Some(d) => d as usize,
            None => {
                assert(!is_digit(digits[i - first]));
                return None;
            },
        };
        assert(digits.take(i - first + 1).drop_last() =~= digits.take(i - first));
        if !overflow {
            match value.checked_mul(10) {
                Some(tens) => match tens.checked_add(d) {
                    Some(next) => {
                        value = next;
                    },
                    None => {
                        overflow = true;
                    },
                },
                None => {
                    overflow = true;
                },
            }
        }
        i += 1;
    }
    assert(digits.take(i - first) =~= digits);
    if overflow {
        None
    } else {
        Some(value)
    }
}

/// The name under which frame `frame` is filed: its number in decimal.
pub fn frame_name(frame: usize) -> (name: String)
    ensures
        name@ == decimal(frame as nat),
{
    let mut name = String::new();
    push_decimal(&mut name, frame);
    assert(name@ =~= decimal(frame as nat));
    name
}

/// The name under which a frame is filed stands for the number of the frame.
pub proof fn lemma_frame_name_round_trip(frame: usize)
    ensures
        frame_number_of(decimal(frame as nat)) == Some(frame),
{
    lemma_decimal(frame as nat);
    assert(is_digit(decimal(frame as nat)[0]));
}

/// Whether every one of `names` stands for a frame number.
pub open spec fn all_frame_numbers(names: Seq<String>) -> bool {
    forall|i: int| 0 <= i < names.len() ==> frame_number_of((#[trigger] names[i])@) is Some
}

/// The largest of the frame numbers that `names` stand for. There is none
/// without names, nor where a name is not a frame number.
pub fn last_frame(names: &Vec<String>) -> (r: Option<usize>)
    ensures
        r is Some <==> names.len() > 0 && all_frame_numbers(names@),
        r is Some ==> forall|i: int|
            0 <= i < names.len() ==> frame_number_of((#[trigger] names[i])@)->0 <= r->0,
        r is Some ==> exists|i: int|
            0 <= i < names.len() && frame_number_of((#[trigger] names[i])@) == r,
{
    if names.len() == 0 {
        return None;
    }
    let mut last: usize = 0;
    let mut i: usize = 0;
    while i < names.len()
        invariant
            i <= names.len(),
            forall|j: int| 0 <= j < i ==> frame_number_of((#[trigger] names[j])@) is Some,
            forall|j: int| 0 <= j < i ==> frame_number_of((#[trigger] names[j])@)->0 <= last,
            i > 0 ==> exists|j: int|
                0 <= j < i && frame_number_of((#[trigger] names[j])@) == Some(last),
        decreases names.len() - i,
    {
        match parse_frame_number(names[i].as_str()) {
            Some(frame) => {
                if i == 0 || frame > last {
                    last = frame;
                }
            },
            None => {
                return None;
            },
        }
        i += 1;
    }
    Some(last)
}

/// Files the box of the state number `state_number` among the boxes of the
/// states stored so far: in place of the box of that number, or, if there is
/// none yet, at the end.
pub fn record_boundary_box<S: Copy>(
    boxes: &mut Vec<Vector3<S>>,
    state_number: usize,
    boundary_box: Vector3<S>,
)
    ensures
        final(boxes)@ == (if state_number < old(boxes).len() {
            old(boxes)@.update(state_number as int, boundary_box)
        } else {
            old(boxes)@.push(boundary_box)
        }),
{
    if boxes.len() > state_number {
        boxes[state_number] = boundary_box;
    } else {
        boxes.push(boundary_box);
    }
}

} // verus!
