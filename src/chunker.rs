//! Splitting a corpus into paragraph chunks at blank lines.
use vstd::prelude::*;
use vstd::string::StringSliceAdditionalSpecFns;
use vstd::utf8::*;

verus! {

broadcast use {vstd::string::group_string_axioms, vstd::utf8::group_utf8_lib};

/// The byte of a line break.
pub const NEWLINE: u8 = 10;

/// True when a blank-line delimiter (two line breaks) starts at position `k` of `b`.
pub open spec fn delimiter_at(b: Seq<u8>, k: int) -> bool {
    0 <= k && k + 1 < b.len() && b[k] == NEWLINE && b[k + 1] == NEWLINE
}

/// The pieces of `b` between blank-line delimiters, taken left to right: the
/// earliest delimiter is cut first, and a delimiter at either end leaves an
/// empty piece.
pub open spec fn split_blank(b: Seq<u8>) -> Seq<Seq<u8>>
    decreases b.len(),
{
    if b.len() == 0 {
        seq![Seq::<u8>::empty()]
    } else if delimiter_at(b, 0) {
        seq![Seq::<u8>::empty()] + split_blank(b.subrange(2, b.len() as int))
    } else {
        let rest = split_blank(b.subrange(1, b.len() as int));
        rest.update(0, seq![b[0]] + rest[0])
    }
}

/// The chunks of a corpus given as UTF-8 bytes: none for an empty corpus,
/// otherwise the blank-line pieces in order.
pub open spec fn corpus_chunks(b: Seq<u8>) -> Seq<Seq<u8>> {
    if b.len() == 0 {
        Seq::empty()
    } else {
        split_blank(b)
    }
}

proof fn lemma_split_blank_nonempty(b: Seq<u8>)
    ensures
        split_blank(b).len() >= 1,
    decreases b.len(),
{
    if b.len() != 0 && !delimiter_at(b, 0) {
        lemma_split_blank_nonempty(b.subrange(1, b.len() as int));
    }
}

/// With no delimiter in `b`, `b` is a single piece.
proof fn lemma_split_no_delimiter(b: Seq<u8>)
    requires
        forall|j: int| !delimiter_at(b, j),
    ensures
        split_blank(b) == seq![b],
    decreases b.len(),
{
    if b.len() != 0 {
        let t = b.subrange(1, b.len() as int);
        assert forall|j: int| !delimiter_at(t, j) by {
            assert(!delimiter_at(b, j + 1));
        }
        lemma_split_no_delimiter(t);
        assert(!delimiter_at(b, 0));
        assert(seq![b[0]] + t =~= b);
        assert(seq![t].update(0, seq![b[0]] + t) =~= seq![b]);
    } else {
        assert(b =~= Seq::<u8>::empty());
    }
}

/// With the first delimiter of `b` at `k`, the first piece is `b[..k]` and
/// the rest is split from `b[k + 2..]`.
proof fn lemma_split_first_delimiter(b: Seq<u8>, k: int)
    requires
        delimiter_at(b, k),
        forall|j: int| 0 <= j < k ==> !delimiter_at(b, j),
    ensures
        split_blank(b) == seq![b.subrange(0, k)] + split_blank(b.subrange(k + 2, b.len() as int)),
    decreases k,
{
    if k == 0 {
        assert(b.subrange(0, 0) =~= Seq::<u8>::empty());
    } else {
        let t = b.subrange(1, b.len() as int);
        assert(delimiter_at(t, k - 1));
        assert forall|j: int| 0 <= j < k - 1 implies !delimiter_at(t, j) by {
            assert(!delimiter_at(b, j + 1));
        }
        lemma_split_first_delimiter(t, k - 1);
        assert(!delimiter_at(b, 0));
        assert(t.subrange(k + 1, t.len() as int) =~= b.subrange(k + 2, b.len() as int));
        assert(seq![b[0]] + t.subrange(0, k - 1) =~= b.subrange(0, k));
        let tail = split_blank(b.subrange(k + 2, b.len() as int));
        assert((seq![t.subrange(0, k - 1)] + tail).update(0, seq![b[0]] + t.subrange(0, k - 1))
            =~= seq![b.subrange(0, k)] + tail);
    }
}

/// A position right after an ASCII byte that starts a character is a
/// character boundary.
proof fn lemma_boundary_after_ascii(b: Seq<u8>, k: int)
    requires
        valid_utf8(b),
        0 <= k < b.len(),
        is_char_boundary(b, k),
        b[k] < 0x80,
    ensures
        is_char_boundary(b, k + 1),
    decreases b.len(),
{
    if k == 0 {
        reveal_with_fuel(is_char_boundary, 2);
    } else {
        lemma_boundary_after_ascii(pop_first_scalar(b), k - length_of_first_scalar(b));
    }
}

/// The position of the first blank-line delimiter in `b`, if there is one.
fn find_delimiter(b: &[u8]) -> (r: Option<usize>)
    ensures
        r matches Some(k) ==> delimiter_at(b@, k as int) && forall|j: int|
            0 <= j < k ==> !delimiter_at(b@, j),
        r is None ==> forall|j: int| !delimiter_at(b@, j),
{
    let n = b.len();
    let mut k: usize = 0;
    while n >= 2 && k < n - 1
        invariant
            n == b@.len(),
            forall|j: int| 0 <= j < k ==> !delimiter_at(b@, j),
        decreases n - k,
    {
        if b[k] == NEWLINE && b[k + 1] == NEWLINE {
            return Some(k);
        }
        k = k + 1;
    }
    None
}

/// `chunks` are the chunks of `text`, in order: each one's UTF-8 bytes are
/// the piece of the corpus at its index.
pub open spec fn chunks_of_text(text: Seq<char>, chunks: Seq<Seq<char>>) -> bool {
    &&& chunks.len() == corpus_chunks(encode_utf8(text)).len()
    &&& forall|i: int|
        0 <= i < chunks.len() ==> encode_utf8(#[trigger] chunks[i]) == corpus_chunks(
            encode_utf8(text),
        )[i]
}

/// The corpus cut at every blank line, in order; an empty corpus gives no
/// chunk, and pieces between adjacent delimiters are kept as empty chunks.
pub fn split_corpus(text: &str) -> (r: Vec<String>)
    ensures
        chunks_of_text(text@, r@.map_values(|s: String| s@)),
{
    let mut out: Vec<String> = Vec::new();
    if text.is_empty() {
        proof {
            assert(out@.map_values(|s: String| s@) =~= Seq::<Seq<char>>::empty());
        }
        return out;
    }
    let ghost whole = encode_utf8(text@);
    let mut rest: &str = text;
    loop
        invariant
            whole == encode_utf8(text@),
            whole.len() > 0,
            split_blank(whole) == out@.map_values(|s: String| encode_utf8(s@)) + split_blank(
                encode_utf8(rest@),
            ),
        decreases encode_utf8(rest@).len(),
    {
        let b = rest.as_bytes();
        proof {
            lemma_split_blank_nonempty(b@);
        }
        match find_delimiter(b) {
            None => {
                proof {
                    lemma_split_no_delimiter(b@);
                }
                out.push(rest.to_owned());
                proof {
                    let views = out@.map_values(|s: String| s@);
                    assert(out@.map_values(|s: String| encode_utf8(s@)) =~= split_blank(whole));
                    assert forall|i: int| 0 <= i < views.len() implies encode_utf8(
                        #[trigger] views[i],
                    ) == corpus_chunks(encode_utf8(text@))[i] by {
                        assert(out@.map_values(|s: String| encode_utf8(s@))[i] == encode_utf8(
                            out@[i]@,
                        ));
                    }
                }
                return out;
            },
            Some(k) => {
                let ghost rb = b@;
                proof {
                    lemma_split_first_delimiter(rb, k as int);
                    assert(is_leading_byte_width_1(rb[k as int]));
                }
                let (head, tail) = rest.split_at(k);
                let ghost tb = encode_utf8(tail@);
                proof {
                    assert(tb =~= rb.subrange(k as int, rb.len() as int));
                    assert(is_char_boundary(tb, 0));
                    lemma_boundary_after_ascii(tb, 0);
                }
                let (_, after_one) = tail.split_at(1);
                let ghost ab = encode_utf8(after_one@);
                proof {
                    assert(ab =~= rb.subrange(k + 1, rb.len() as int));
                    assert(is_char_boundary(ab, 0));
                    lemma_boundary_after_ascii(ab, 0);
                }
                let (_, after_two) = after_one.split_at(1);
                let ghost old_out = out@;
                out.push(head.to_owned());
                proof {
                    assert(encode_utf8(after_two@) =~= rb.subrange(k + 2, rb.len() as int));
                    assert(encode_utf8(head@) =~= rb.subrange(0, k as int));
                    assert(out@.map_values(|s: String| encode_utf8(s@)) =~= old_out.map_values(
                        |s: String| encode_utf8(s@),
                    ) + seq![rb.subrange(0, k as int)]);
                }
                rest = after_two;
            },
        }
    }
}

/// Chunking is a function of the corpus: equal texts give the same chunks
/// at the same indices.
pub proof fn lemma_chunking_deterministic(
    t1: Seq<char>,
    t2: Seq<char>,
    c1: Seq<Seq<char>>,
    c2: Seq<Seq<char>>,
)
    requires
        t1 == t2,
        chunks_of_text(t1, c1),
        chunks_of_text(t2, c2),
    ensures
        c1 == c2,
{
    assert forall|i: int| 0 <= i < c1.len() implies c1[i] == c2[i] by {
        encode_utf8_decode_utf8(c1[i]);
        encode_utf8_decode_utf8(c2[i]);
    }
    assert(c1 =~= c2);
}

} // verus!
