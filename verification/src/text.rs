//! Verified text building: decimal rendering of integers and joining with
//! separators, used to assemble the exact byte strings that are hashed.

use vstd::prelude::*;

verus! {

/// The character for one decimal digit.
pub open spec fn digit_char(d: int) -> char {
    if d == 0 {
        '0'
    } else if d == 1 {
        '1'
    } else if d == 2 {
        '2'
    } else if d == 3 {
        '3'
    } else if d == 4 {
        '4'
    } else if d == 5 {
        '5'
    } else if d == 6 {
        '6'
    } else if d == 7 {
        '7'
    } else if d == 8 {
        '8'
    } else {
        '9'
    }
}

/// The decimal text of a non-negative integer, most significant digit
/// first, with no leading zeros.
pub open spec fn dec_str(n: int) -> Seq<char>
    decreases n,
{
    if n < 10 {
        seq![digit_char(n)]
    } else {
        dec_str(n / 10) + seq![digit_char(n % 10)]
    }
}

/// One decimal digit as text.
fn digit_str(d: u64) -> (r: &'static str)
    requires
        d < 10,
    ensures
        r@ =~= seq![digit_char(d as int)],
{
    proof {
        reveal_strlit("0");
        reveal_strlit("1");
        reveal_strlit("2");
        reveal_strlit("3");
        reveal_strlit("4");
        reveal_strlit("5");
        reveal_strlit("6");
        reveal_strlit("7");
        reveal_strlit("8");
        reveal_strlit("9");
    }
    match d {
        0 => "0",
        1 => "1",
        2 => "2",
        3 => "3",
        4 => "4",
        5 => "5",
        6 => "6",
        7 => "7",
        8 => "8",
        _ => "9",
    }
}

/// Render an integer in decimal.
pub fn u64_to_string(n: u64) -> (s: String)
    ensures
        s@ == dec_str(n as int),
    decreases n,
{
    if n < 10 {
        String::from_str(digit_str(n))
    } else {
        let mut s = u64_to_string(n / 10);
        s.append(digit_str(n % 10));
        proof {
            assert(s@ =~= dec_str(n as int));
        }
        s
    }
}

/// Texts joined with a comma between neighbours.
pub open spec fn join_comma(items: Seq<Seq<char>>) -> Seq<char>
    decreases items.len(),
{
    if items.len() == 0 {
        Seq::empty()
    } else if items.len() == 1 {
        items[0]
    } else {
        join_comma(items.drop_last()) + seq![','] + items.last()
    }
}

/// Join a list of strings with commas.
pub fn join_with_comma(items: &Vec<String>) -> (s: String)
    ensures
        s@ == join_comma(items.deep_view()),
{
    let ghost view = items.deep_view();
    let mut s = String::new();
    let mut k: usize = 0;
    proof {
        reveal_strlit(",");
    }
    while k < items.len()
        invariant
            k <= items@.len(),
            view == items.deep_view(),
            view.len() == items@.len(),
            forall|t: int| 0 <= t < view.len() ==> view[t] == #[trigger] items@[t]@,
            s@ == join_comma(view.take(k as int)),
        decreases items@.len() - k,
    {
        if k > 0 {
            s.append(",");
        }
        s.append(items[k].as_str());
        proof {
            reveal_strlit(",");
            assert(view.take(k as int + 1).drop_last() =~= view.take(k as int));
            assert(view.take(k as int + 1).last() == view[k as int]);
            assert(","@ =~= seq![',']);
            if k == 0 {
                assert(s@ =~= join_comma(view.take(1)));
            } else {
                assert(join_comma(view.take(k as int + 1)) == join_comma(view.take(k as int))
                    + seq![','] + view[k as int]);
                assert(s@ =~= join_comma(view.take(k as int)) + seq![','] + view[k as int]);
            }
        }
        k = k + 1;
    }
    proof {
        assert(view.take(view.len() as int) =~= view);
    }
    s
}

} // verus!
