//! Textual rendering of a list of unsigned values: each value in decimal,
//! front to back, each followed by an arrow, closed by the sentinel marker.

use crate::list::List;
use vstd::prelude::*;

verus! {

use vstd::string::StringExecFns;

/// The single character of the decimal digit `d`.
pub open spec fn digit_rep(d: nat) -> Seq<char> {
    if d == 0 {
        "0"@
    } else if d == 1 {
        "1"@
    } else if d == 2 {
        "2"@
    } else if d == 3 {
        "3"@
    } else if d == 4 {
        "4"@
    } else if d == 5 {
        "5"@
    } else if d == 6 {
        "6"@
    } else if d == 7 {
        "7"@
    } else if d == 8 {
        "8"@
    } else {
        "9"@
    }
}

/// The decimal representation of `n`, most significant digit first, with
/// no leading zeros (a single zero for `n == 0`).
pub open spec fn decimal_rep(n: nat) -> Seq<char>
    decreases n,
{
    if n < 10 {
        digit_rep(n)
    } else {
        decimal_rep(n / 10) + digit_rep(n % 10)
    }
}

/// The rendered form of the values `vals`, front to back: every value is
/// followed by an arrow, and the sentinel marker closes the line.
pub open spec fn rendered(vals: Seq<usize>) -> Seq<char>
    decreases vals.len(),
{
    if vals.len() == 0 {
        "(sentinel)\n"@
    } else {
        decimal_rep(vals[0] as nat) + " -> "@ + rendered(vals.drop_first())
    }
}

/// The digit character of `d` as a string slice.
fn digit_str(d: usize) -> (s: &'static str)
    requires
        d < 10,
    ensures
        s@ == digit_rep(d as nat),
{
    match d {
        0 => "0",
        1 => "1",
        2 => "2",
        3 => "3",
        4 => "4",
        5 => "5",
        6 => "6",
        7 => "7",
        8 => "8",
        _ => "9",
    }
}

/// Appends the decimal representation of `n` to `out`.
fn push_decimal(out: &mut String, n: usize)
    ensures
        final(out)@ == old(out)@ + decimal_rep(n as nat),
    decreases n,
{
    if n >= 10 {
        push_decimal(out, n / 10);
    }
    out.append(digit_str(n % 10));
    proof {
        if n < 10 {
            assert(n % 10 == n);
        } else {
            assert(old(out)@ + decimal_rep((n / 10) as nat) + digit_rep((n % 10) as nat)
                =~= old(out)@ + decimal_rep(n as nat));
        }
    }
}

impl List<usize> {
    /// Renders the list front to back: each value in decimal followed by
    /// an arrow, then the sentinel marker and a newline.  An empty list
    /// renders as the marker alone.
    pub fn render(&self) -> (s: String)
        requires
            self.wf(),
        ensures
            s@ == rendered(self@),
    {
        let ghost vals = self@;
        let mut out = String::new();
        let mut cur = self.nodes[0].next;
        let mut i: usize = 0;
        proof {
            assert(vals.skip(0) =~= vals);
            assert(Seq::<char>::empty() + rendered(vals) =~= rendered(vals));
        }
        while i < self.size
            invariant
                self.wf(),
                vals == self@,
                i <= self.size,
                i < self.size ==> cur == self.order@[i as int],
                out@ + rendered(vals.skip(i as int)) == rendered(vals),
            decreases self.size - i,
        {
            let ghost i0 = i as int;
            proof {
                assert(vals.skip(i0)[0] == vals[i0]);
                assert(vals.skip(i0).drop_first() =~= vals.skip(i0 + 1));
            }
            push_decimal(&mut out, self.nodes[cur].data);
            out.append(" -> ");
            proof {
                assert(out@ + rendered(vals.skip(i0 + 1)) =~= rendered(vals));
                assert(self.link_ok(i0));
            }
            cur = self.nodes[cur].next;
            i = i + 1;
        }
        out.append("(sentinel)\n");
        proof {
            assert(vals.skip(self.size as int) =~= Seq::<usize>::empty());
        }
        out
    }
}

} // verus!
