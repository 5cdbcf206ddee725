//! Size classes and scoring.
//!
//! An asteroid's continuous size (in milli-units) is bucketed into one of six
//! discrete classes by rounding `size / 6` (in whole units) to the nearest
//! integer. The class only drives scoring and asset selection, never physics.

use vstd::prelude::*;

verus! {

use vstd::string::StrSliceExecFns;

/// Largest milli-unit size that still buckets into the last class.
pub const MAX_CLASS_SIZE: i64 = 32999;

/// The six discrete size buckets, smallest first.
#[derive(Clone, Copy, Debug, PartialEq, Eq, Structural)]
pub enum SizeClass {
    Xs,
    S,
    M,
    L,
    Xl,
    Xxl,
}

/// Bucket index of a milli-unit size: `size / 6` in whole units, rounded to
/// the nearest integer (halves round up).
pub open spec fn spec_class_index(size: int) -> int {
    (size + 3000) / 6000
}

pub open spec fn class_of_index(i: int) -> SizeClass {
    if i == 0 {
        SizeClass::Xs
    } else if i == 1 {
        SizeClass::S
    } else if i == 2 {
        SizeClass::M
    } else if i == 3 {
        SizeClass::L
    } else if i == 4 {
        SizeClass::Xl
    } else {
        SizeClass::Xxl
    }
}

pub open spec fn spec_class_of_size(size: int) -> SizeClass {
    class_of_index(spec_class_index(size))
}

/// Points awarded for destroying a body of the given class: the smaller the
/// body, the more it is worth.
pub open spec fn spec_score_of_class(c: SizeClass) -> u32 {
    match c {
        SizeClass::Xs => 50,
        SizeClass::S => 30,
        SizeClass::M => 10,
        SizeClass::L => 5,
        SizeClass::Xl => 1,
        SizeClass::Xxl => 1,
    }
}

/// Buckets a milli-unit size into its class.
pub fn class_of_size(size: i64) -> (c: SizeClass)
    requires
        0 < size <= MAX_CLASS_SIZE,
    ensures
        c == spec_class_of_size(size as int),
{
    let idx: i64 = (size + 3000) / 6000;
    if idx == 0 {
        SizeClass::Xs
    } else if idx == 1 {
        SizeClass::S
    } else if idx == 2 {
        SizeClass::M
    } else if idx == 3 {
        SizeClass::L
    } else if idx == 4 {
        SizeClass::Xl
    } else {
        SizeClass::Xxl
    }
}

/// Points for a class, as a plain table.
pub fn score_of_class(c: SizeClass) -> (points: u32)
    ensures
        points == spec_score_of_class(c),
{
    match c {
        SizeClass::Xs => 50,
        SizeClass::S => 30,
        SizeClass::M => 10,
        SizeClass::L => 5,
        SizeClass::Xl => 1,
        SizeClass::Xxl => 1,
    }
}

/// The display name of a class.
pub fn class_name(c: SizeClass) -> (name: &'static str)
    ensures
        name@ == spec_class_name(c),
{
    match c {
        SizeClass::Xs => "XS",
        SizeClass::S => "S",
        SizeClass::M => "M",
        SizeClass::L => "L",
        SizeClass::Xl => "XL",
        SizeClass::Xxl => "XXL",
    }
}

pub open spec fn spec_class_name(c: SizeClass) -> Seq<char> {
    match c {
        SizeClass::Xs => "XS"@,
        SizeClass::S => "S"@,
        SizeClass::M => "M"@,
        SizeClass::L => "L"@,
        SizeClass::Xl => "XL"@,
        SizeClass::Xxl => "XXL"@,
    }
}

/// Score value of a class given by its display name; unknown names are worth
/// nothing.
pub open spec fn spec_score_of_name(s: Seq<char>) -> u32 {
    if s == "XS"@ {
        50
    } else if s == "S"@ {
        30
    } else if s == "M"@ {
        10
    } else if s == "L"@ {
        5
    } else if s == "XL"@ {
        1
    } else if s == "XXL"@ {
        1
    } else {
        0
    }
}

/// Character-wise string equality.
fn str_eq(a: &str, b: &str) -> (r: bool)
    ensures
        r == (a@ == b@),
{
    let a_len = a.unicode_len();
    let b_len = b.unicode_len();
    if a_len != b_len {
        proof {
            assert(a@.len() != b@.len());
        }
        return false;
    }
    let mut i: usize = 0;
    while i < a_len
        invariant
            a_len == a@.len(),
            b_len == b@.len(),
            a_len == b_len,
            i <= a_len,
            forall|j: int| 0 <= j < i ==> a@[j] == b@[j],
        decreases a_len - i,
    {
        if a.get_char(i) != b.get_char(i) {
            proof {
                assert(a@[i as int] != b@[i as int]);
            }
            return false;
        }
        i = i + 1;
    }
    proof {
        assert(a@ =~= b@);
    }
    true
}

/// Points awarded for a struck body, looked up by the display name of its
/// size class.
pub fn get_score(size_type: &str) -> (points: u32)
    ensures
        points == spec_score_of_name(size_type@),
{
    if str_eq(size_type, "XS") {
        50
    } else if str_eq(size_type, "S") {
        30
    } else if str_eq(size_type, "M") {
        10
    } else if str_eq(size_type, "L") {
        5
    } else if str_eq(size_type, "XL") {
        1
    } else if str_eq(size_type, "XXL") {
        1
    } else {
        0
    }
}

/// The name lookup and the class table agree: scoring a class through its
/// display name gives the class's own score.
pub proof fn lemma_score_name_agrees(c: SizeClass)
    ensures
        spec_score_of_name(spec_class_name(c)) == spec_score_of_class(c),
{
    reveal_strlit("XS");
    reveal_strlit("S");
    reveal_strlit("M");
    reveal_strlit("L");
    reveal_strlit("XL");
    reveal_strlit("XXL");
    assert(("XS"@).len() == 2);
    assert(("S"@).len() == 1);
    assert(("M"@).len() == 1);
    assert(("L"@).len() == 1);
    assert(("XL"@).len() == 2);
    assert(("XXL"@).len() == 3);
    assert(("XL"@)[1] == 'L');
    assert(("XS"@)[1] == 'S');
    assert(("S"@)[0] == 'S');
    assert(("M"@)[0] == 'M');
    assert(("L"@)[0] == 'L');
    assert(("XL"@)[0] == 'X');
}

} // verus!
