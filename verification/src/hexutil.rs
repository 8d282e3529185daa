//! Lower-case hexadecimal spelling of byte strings, two digits per byte,
//! used when addresses and state deltas are put into wire messages.

use vstd::prelude::*;

verus! {

use vstd::string::StringExecFns;

/// The lower-case hexadecimal digit for a nibble.
pub open spec fn hex_digit_char(v: nat) -> char {
    if v == 0 {
        '0'
    } else if v == 1 {
        '1'
    } else if v == 2 {
        '2'
    } else if v == 3 {
        '3'
    } else if v == 4 {
        '4'
    } else if v == 5 {
        '5'
    } else if v == 6 {
        '6'
    } else if v == 7 {
        '7'
    } else if v == 8 {
        '8'
    } else if v == 9 {
        '9'
    } else if v == 10 {
        'a'
    } else if v == 11 {
        'b'
    } else if v == 12 {
        'c'
    } else if v == 13 {
        'd'
    } else if v == 14 {
        'e'
    } else {
        'f'
    }
}

/// The lower-case hexadecimal spelling of a byte string: the high nibble of
/// each byte, then its low nibble, in byte order.
pub open spec fn hex_str(s: Seq<u8>) -> Seq<char>
    decreases s.len(),
{
    if s.len() == 0 {
        Seq::empty()
    } else {
        hex_str(s.drop_last())
            + seq![
            hex_digit_char((s.last() / 16) as nat),
            hex_digit_char((s.last() % 16) as nat),
        ]
    }
}

fn push_hex_digit(out: &mut String, v: u8)
    requires
        v < 16,
    ensures
        final(out)@ == old(out)@ + seq![hex_digit_char(v as nat)],
{
    if v == 0 {
        out.append("0");
        proof { reveal_strlit("0"); assert(out@ =~= old(out)@ + seq![hex_digit_char(v as nat)]); }
    } else if v == 1 {
        out.append("1");
        proof { reveal_strlit("1"); assert(out@ =~= old(out)@ + seq![hex_digit_char(v as nat)]); }
    } else if v == 2 {
        out.append("2");
        proof { reveal_strlit("2"); assert(out@ =~= old(out)@ + seq![hex_digit_char(v as nat)]); }
    } else if v == 3 {
        out.append("3");
        proof { reveal_strlit("3"); assert(out@ =~= old(out)@ + seq![hex_digit_char(v as nat)]); }
    } else if v == 4 {
        out.append("4");
        proof { reveal_strlit("4"); assert(out@ =~= old(out)@ + seq![hex_digit_char(v as nat)]); }
    } else if v == 5 {
        out.append("5");
        proof { reveal_strlit("5"); assert(out@ =~= old(out)@ + seq![hex_digit_char(v as nat)]); }
    } else if v == 6 {
        out.append("6");
        proof { reveal_strlit("6"); assert(out@ =~= old(out)@ + seq![hex_digit_char(v as nat)]); }
    } else if v == 7 {
        out.append("7");
        proof { reveal_strlit("7"); assert(out@ =~= old(out)@ + seq![hex_digit_char(v as nat)]); }
    } else if v == 8 {
        out.append("8");
        proof { reveal_strlit("8"); assert(out@ =~= old(out)@ + seq![hex_digit_char(v as nat)]); }
    } else if v == 9 {
        out.append("9");
        proof { reveal_strlit("9"); assert(out@ =~= old(out)@ + seq![hex_digit_char(v as nat)]); }
    } else if v == 10 {
        out.append("a");
        proof { reveal_strlit("a"); assert(out@ =~= old(out)@ + seq![hex_digit_char(v as nat)]); }
    } else if v == 11 {
        out.append("b");
        proof { reveal_strlit("b"); assert(out@ =~= old(out)@ + seq![hex_digit_char(v as nat)]); }
    } else if v == 12 {
        out.append("c");
        proof { reveal_strlit("c"); assert(out@ =~= old(out)@ + seq![hex_digit_char(v as nat)]); }
    } else if v == 13 {
        out.append("d");
        proof { reveal_strlit("d"); assert(out@ =~= old(out)@ + seq![hex_digit_char(v as nat)]); }
    } else if v == 14 {
        out.append("e");
        proof { reveal_strlit("e"); assert(out@ =~= old(out)@ + seq![hex_digit_char(v as nat)]); }
    } else {
        out.append("f");
        proof { reveal_strlit("f"); assert(out@ =~= old(out)@ + seq![hex_digit_char(v as nat)]); }
    }
}

/// The lower-case hexadecimal spelling of `data`.
pub fn to_hex(data: &[u8]) -> (r: String)
    ensures
        r@ == hex_str(data@),
{
    let mut out = String::new();
    let n = data.len();
    let mut i: usize = 0;
    proof {
        assert(data@.take(0) =~= Seq::<u8>::empty());
    }
    while i < n
        invariant
            0 <= i <= n,
            n == data@.len(),
            out@ == hex_str(data@.take(i as int)),
        decreases n - i,
    {
        let b = data[i];
        push_hex_digit(&mut out, b / 16);
        push_hex_digit(&mut out, b % 16);
        proof {
            assert(data@.take(i + 1).drop_last() =~= data@.take(i as int));
            assert(data@.take(i + 1).last() == b);
            assert(out@ =~= hex_str(data@.take(i + 1)));
        }
        i = i + 1;
    }
    proof {
        assert(data@.take(n as int) =~= data@);
    }
    out
}

} // verus!
