//! Alignment of the extraction window: one of nine corner/center positions,
//! parsed from a `<horizontal>-<vertical>` token.

use vstd::prelude::*;
use vstd::string::StrSliceExecFns;

verus! {

/// Where the row window sits along the lattice edge.
#[derive(Clone, Copy, Debug, PartialEq, Eq, Structural)]
pub enum HorizontalPosition {
    Left,
    Center,
    Right,
}

/// Where the column window sits along the lattice edge.
#[derive(Clone, Copy, Debug, PartialEq, Eq, Structural)]
pub enum VerticalPosition {
    Top,
    Center,
    Bottom,
}

/// One of the nine window alignments.
#[derive(Clone, Copy, Debug, PartialEq, Eq, Structural)]
pub struct Corner {
    pub horizontal: HorizontalPosition,
    pub vertical: VerticalPosition,
}

/// The token that names a horizontal alignment.
pub open spec fn horizontal_token(h: HorizontalPosition) -> Seq<char> {
    match h {
        HorizontalPosition::Left => "left"@,
        HorizontalPosition::Center => "center"@,
        HorizontalPosition::Right => "right"@,
    }
}

/// The token that names a vertical alignment.
pub open spec fn vertical_token(v: VerticalPosition) -> Seq<char> {
    match v {
        VerticalPosition::Top => "top"@,
        VerticalPosition::Center => "center"@,
        VerticalPosition::Bottom => "bottom"@,
    }
}

/// Character-by-character string comparison.
fn str_eq(a: &str, b: &str) -> (r: bool)
    ensures
        r == (a@ == b@),
{
    let an = a.unicode_len();
    let bn = b.unicode_len();
    if an != bn {
        return false;
    }
    let mut i: usize = 0;
    while i < an
        invariant
            an == a@.len(),
            bn == b@.len(),
            an == bn,
            i <= an,
            forall|j: int| 0 <= j < i ==> a@[j] == b@[j],
        decreases an - i,
    {
        if a.get_char(i) != b.get_char(i) {
            return false;
        }
        i += 1;
    }
    proof {
        assert(a@ =~= b@);
    }
    true
}

impl HorizontalPosition {
    /// Parses `left`, `center` or `right`; any other token is an error.
    pub fn from_str(s: &str) -> (r: Result<Self, String>)
        ensures
            match r {
                Ok(h) => s@ == horizontal_token(h),
                Err(_) => forall|h: HorizontalPosition| s@ != horizontal_token(h),
            },
    {
        if str_eq(s, "left") {
            Ok(HorizontalPosition::Left)
        } else if str_eq(s, "right") {
            Ok(HorizontalPosition::Right)
        } else if str_eq(s, "center") {
            Ok(HorizontalPosition::Center)
        } else {
            Err("Shoud be one of variant: left, center or right".to_owned())
        }
    }
}

/// The token that names a corner: the horizontal name, a dash, the vertical
/// name.
pub open spec fn corner_token(c: Corner) -> Seq<char> {
    horizontal_token(c.horizontal) + seq!['-'] + vertical_token(c.vertical)
}

/// Index of the first dash in `s`, if any.
fn find_dash(s: &str) -> (r: Option<usize>)
    ensures
        match r {
            Some(i) => i < s@.len() && s@[i as int] == '-' && (forall|j: int|
                0 <= j < i ==> s@[j] != '-'),
            None => forall|j: int| 0 <= j < s@.len() ==> s@[j] != '-',
        },
{
    let n = s.unicode_len();
    let mut i: usize = 0;
    while i < n
        invariant
            i <= n,
            n == s@.len(),
            forall|j: int| 0 <= j < i ==> s@[j] != '-',
        decreases n - i,
    {
        if s.get_char(i) == '-' {
            return Some(i);
        }
        i = i + 1;
    }
    None
}

impl Corner {
    /// Parses a `<horizontal>-<vertical>` token; anything else is an error.
    pub fn from_str(s: &str) -> (r: Result<Self, String>)
        ensures
            match r {
                Ok(c) => s@ == corner_token(c),
                Err(_) => forall|c: Corner| s@ != corner_token(c),
            },
    {
        proof {
            reveal_strlit("left");
            reveal_strlit("center");
            reveal_strlit("right");
            reveal_strlit("top");
            reveal_strlit("bottom");
        }
        let n = s.unicode_len();
        match find_dash(s) {
            None => {
                proof {
                    assert forall|c: Corner| s@ != corner_token(c) by {
                        if s@ == corner_token(c) {
                            let hlen = horizontal_token(c.horizontal).len() as int;
                            assert(s@[hlen] == '-');
                        }
                    }
                }
                Err("Should be horizontal-vertical".to_owned())
            },
            Some(i) => {
                let left = s.substring_char(0, i);
                let right = s.substring_char(i + 1, n);
                let h = match HorizontalPosition::from_str(left) {
                    Ok(h) => h,
                    Err(e) => {
                        proof {
                            assert forall|c: Corner| s@ != corner_token(c) by {
                                if s@ == corner_token(c) {
                                    let hlen = horizontal_token(c.horizontal).len() as int;
                                    assert(s@[hlen] == '-');
                                    assert(forall|j: int|
                                        0 <= j < hlen ==> s@[j] == horizontal_token(c.horizontal)[j]);
                                    assert(i == hlen);
                                    assert(left@ =~= horizontal_token(c.horizontal));
                                }
                            }
                        }
                        return Err(e);
                    },
                };
                let v = match VerticalPosition::from_str(right) {
                    Ok(v) => v,
                    Err(e) => {
                        proof {
                            assert forall|c: Corner| s@ != corner_token(c) by {
                                if s@ == corner_token(c) {
                                    let hlen = horizontal_token(c.horizontal).len() as int;
                                    assert(s@[hlen] == '-');
                                    assert(forall|j: int|
                                        0 <= j < hlen ==> s@[j] == horizontal_token(c.horizontal)[j]);
                                    assert(i == hlen);
                                    assert(right@ =~= vertical_token(c.vertical));
                                }
                            }
                        }
                        return Err(e);
                    },
                };
                let c = Corner { horizontal: h, vertical: v };
                proof {
                    assert(s@ =~= corner_token(c));
                }
                Ok(c)
            },
        }
    }
}

impl VerticalPosition {
    /// Parses `top`, `center` or `bottom`; any other token is an error.
    pub fn from_str(s: &str) -> (r: Result<Self, String>)
        ensures
            match r {
                Ok(v) => s@ == vertical_token(v),
                Err(_) => forall|v: VerticalPosition| s@ != vertical_token(v),
            },
    {
        if str_eq(s, "top") {
            Ok(VerticalPosition::Top)
        } else if str_eq(s, "center") {
            Ok(VerticalPosition::Center)
        } else if str_eq(s, "bottom") {
            Ok(VerticalPosition::Bottom)
        } else {
            Err("Shoud be one of variant: top, center or bottom".to_owned())
        }
    }
}

} // verus!
