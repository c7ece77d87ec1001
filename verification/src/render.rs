//! Rendering an argument list for inspection: a bracketed, comma-separated
//! list of quoted arguments, with bytes outside the printable ASCII range
//! shown as two-digit hexadecimal escapes.

use vstd::prelude::*;

verus! {

/// The code of one lowercase hexadecimal digit.
pub open spec fn hex_digit(n: u8) -> u8 {
    if n < 10 {
        (0x30 + n) as u8
    } else {
        (0x57 + n) as u8
    }
}

/// How one argument byte is rendered: printable ASCII bytes stand for
/// themselves, quotes and backslashes carry a backslash, and everything else
/// becomes a `\xHH` escape.
pub open spec fn escape_byte(b: u8) -> Seq<u8> {
    if b == 0x22 {
        seq![0x5cu8, 0x22u8]
    } else if b == 0x5c {
        seq![0x5cu8, 0x5cu8]
    } else if 0x20 <= b && b <= 0x7e {
        seq![b]
    } else {
        seq![0x5cu8, 0x78u8, hex_digit(b / 16), hex_digit(b % 16)]
    }
}

/// The escaped form of a whole argument.
pub open spec fn escape_bytes(a: Seq<u8>) -> Seq<u8>
    decreases a.len(),
{
    if a.len() == 0 {
        Seq::empty()
    } else {
        escape_byte(a[0]) + escape_bytes(a.drop_first())
    }
}

/// One argument rendered between double quotes.
pub open spec fn quoted(a: Seq<u8>) -> Seq<u8> {
    seq![0x22u8] + escape_bytes(a) + seq![0x22u8]
}

/// The quoted arguments joined by a comma and a space.
pub open spec fn joined(args: Seq<Seq<u8>>) -> Seq<u8>
    decreases args.len(),
{
    if args.len() == 0 {
        Seq::empty()
    } else if args.len() == 1 {
        quoted(args[0])
    } else {
        quoted(args[0]) + seq![0x2cu8, 0x20u8] + joined(args.drop_first())
    }
}

/// The characters that a sequence of ASCII bytes spells.
pub open spec fn chars_of(bytes: Seq<u8>) -> Seq<char> {
    bytes.map_values(|b: u8| b as char)
}

/// The full rendering of an argument list: the joined quoted arguments
/// between square brackets.
pub open spec fn rendered(args: Seq<Seq<u8>>) -> Seq<char> {
    chars_of(seq![0x5bu8] + joined(args) + seq![0x5du8])
}

/// Whether every byte lies in the ASCII range.
pub open spec fn all_ascii(bytes: Seq<u8>) -> bool {
    forall|i: int| 0 <= i < bytes.len() ==> bytes[i] < 0x80
}

/// Escaping a byte appended at the end extends the escaped sequence at the
/// end.
proof fn lemma_escape_bytes_snoc(a: Seq<u8>, b: u8)
    ensures
        escape_bytes(a.push(b)) == escape_bytes(a) + escape_byte(b),
    decreases a.len(),
{
    if a.len() == 0 {
        assert(a.push(b).drop_first() =~= a);
        assert(a.push(b)[0] == b);
        assert(escape_bytes(a) =~= Seq::<u8>::empty());
        assert(escape_bytes(a.push(b)) =~= escape_bytes(a) + escape_byte(b));
    } else {
        assert(a.push(b).drop_first() =~= a.drop_first().push(b));
        assert(a.push(b)[0] == a[0]);
        lemma_escape_bytes_snoc(a.drop_first(), b);
        assert(escape_bytes(a.push(b)) =~= escape_bytes(a) + escape_byte(b));
    }
}

/// Joining with one more argument at the end appends a separator and that
/// argument's quoted form.
proof fn lemma_joined_snoc(args: Seq<Seq<u8>>, x: Seq<u8>)
    ensures
        args.len() == 0 ==> joined(args.push(x)) == quoted(x),
        args.len() > 0 ==> joined(args.push(x)) == joined(args) + seq![0x2cu8, 0x20u8]
            + quoted(x),
    decreases args.len(),
{
    if args.len() == 0 {
        assert(args.push(x)[0] == x);
    } else if args.len() == 1 {
        assert(args.push(x)[0] == args[0]);
        assert(args.push(x).drop_first() =~= seq![x]);
        assert(joined(seq![x]) == quoted(x));
        assert(joined(args.push(x)) =~= joined(args) + seq![0x2cu8, 0x20u8] + quoted(x));
    } else {
        assert(args.push(x)[0] == args[0]);
        assert(args.push(x).drop_first() =~= args.drop_first().push(x));
        lemma_joined_snoc(args.drop_first(), x);
        assert(joined(args.push(x)) =~= joined(args) + seq![0x2cu8, 0x20u8] + quoted(x));
    }
}

/// One lowercase hexadecimal digit, as executable code.
fn to_hex_digit(n: u8) -> (r: u8)
    requires
        n < 16,
    ensures
        r == hex_digit(n),
{
    if n < 10 {
        0x30 + n
    } else {
        0x57 + n
    }
}

/// Appends the escaped form of one byte.
fn push_escaped(out: &mut Vec<u8>, b: u8)
    ensures
        final(out)@ == old(out)@ + escape_byte(b),
        all_ascii(old(out)@) ==> all_ascii(final(out)@),
{
    if b == 0x22 {
        out.push(0x5c);
        out.push(0x22);
    } else if b == 0x5c {
        out.push(0x5c);
        out.push(0x5c);
    } else if 0x20 <= b && b <= 0x7e {
        out.push(b);
    } else {
        out.push(0x5c);
        out.push(0x78);
        out.push(to_hex_digit(b / 16));
        out.push(to_hex_digit(b % 16));
    }
    proof {
        assert(out@ =~= old(out)@ + escape_byte(b));
    }
}

/// Appends one whole argument between double quotes.
fn push_quoted(out: &mut Vec<u8>, a: &Vec<u8>)
    ensures
        final(out)@ == old(out)@ + quoted(a@),
        all_ascii(old(out)@) ==> all_ascii(final(out)@),
{
    out.push(0x22);
    let ghost opened = out@;
    let mut j: usize = 0;
    while j < a.len()
        invariant
            j <= a@.len(),
            out@ == opened + escape_bytes(a@.take(j as int)),
            all_ascii(opened) ==> all_ascii(out@),
        decreases a@.len() - j,
    {
        let b = a[j];
        push_escaped(out, b);
        j = j + 1;
        proof {
            assert(a@.take(j as int).drop_last() =~= a@.take(j - 1));
            assert(a@.take(j as int).last() == a@[j - 1]);
            lemma_escape_bytes_snoc(a@.take(j - 1), a@[j - 1]);
            assert(a@.take(j - 1).push(a@[j - 1]) =~= a@.take(j as int));
            assert(out@ =~= opened + escape_bytes(a@.take(j as int)));
        }
    }
    proof {
        assert(a@.take(a@.len() as int) =~= a@);
    }
    out.push(0x22);
    proof {
        assert(out@ =~= old(out)@ + quoted(a@));
    }
}

/// Renders an argument list as a string: the arguments quoted, escaped,
/// joined by comma and space, and enclosed in square brackets.
pub fn render_args(args: &Vec<Vec<u8>>) -> (s: String)
    ensures
        s@ == rendered(args.deep_view()),
{
    let mut out: Vec<u8> = Vec::new();
    out.push(0x5b);
    let ghost all = args.deep_view();
    let mut i: usize = 0;
    while i < args.len()
        invariant
            i <= args@.len(),
            all == args.deep_view(),
            out@ == seq![0x5bu8] + joined(all.take(i as int)),
            all_ascii(out@),
        decreases args@.len() - i,
    {
        if i > 0 {
            out.push(0x2c);
            out.push(0x20);
        }
        push_quoted(&mut out, &args[i]);
        proof {
            lemma_joined_snoc(all.take(i as int), all[i as int]);
            assert(all.take(i as int).push(all[i as int]) =~= all.take(i + 1));
            assert(args@[i as int]@ == all[i as int]);
            assert(out@ =~= seq![0x5bu8] + joined(all.take(i + 1)));
        }
        i = i + 1;
    }
    proof {
        assert(all.take(all.len() as int) =~= all);
    }
    out.push(0x5d);
    proof {
        assert(out@ =~= seq![0x5bu8] + joined(all) + seq![0x5du8]);
    }
    ascii_to_string(out)
}

/// Relies on String::from_utf8: bytes in the ASCII range are one-byte UTF-8
/// sequences, so the resulting string spells exactly those bytes as
/// characters.
#[verifier::external_body]
fn ascii_to_string(bytes: Vec<u8>) -> (s: String)
    requires
        all_ascii(bytes@),
    ensures
        s@ == chars_of(bytes@),
{
    String::from_utf8(bytes).unwrap_or_default()
}

} // verus!
