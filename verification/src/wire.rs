//! The pieces that the bytes of a record are made of, and how each is read
//! back.
//!
//! A number is written as eight bytes, lowest first. A run of bytes is
//! written as its length, a number, and then the bytes. A text is written as
//! the run of its UTF-8 bytes. An optional text is written as one byte, 1 or
//! 0, followed by the text if there is one. A list of texts is written as
//! its length, a number, and then each text. An identifier is written as
//! its twelve bytes.
//!
//! Each piece has the bytes that stand for it (`.._bytes`), the parser that
//! reads it from the front of an input and gives it with the input that is
//! left (`parse_..`), and two lemmas: what was written is read back, and what
//! was read had been written.

use crate::record::{optional_text, ID_LEN};
use vstd::bytes::{
    lemma_auto_spec_u64_to_from_le_bytes, spec_u64_from_le_bytes, spec_u64_to_le_bytes,
    u64_from_le_bytes, u64_to_le_bytes,
};
use vstd::prelude::*;
use vstd::slice::{slice_subrange, slice_to_vec};
use vstd::utf8::{decode_utf8, encode_utf8, valid_utf8};

verus! {

/// The value that a parser read and the input that it left.
pub open spec fn parsed<T>(value: T, rest: Seq<u8>) -> Option<(T, Seq<u8>)> {
    Some((value, rest))
}

/// What a parser read, where it read something.
pub open spec fn value<T>(read: Option<(T, Seq<u8>)>) -> T {
    (read->0).0
}

/// What a parser left, where it read something.
pub open spec fn rest<T>(read: Option<(T, Seq<u8>)>) -> Seq<u8> {
    (read->0).1
}

/// The bytes of a number.
pub open spec fn number_bytes(x: u64) -> Seq<u8> {
    spec_u64_to_le_bytes(x)
}

/// Reads a number from the front of `input`.
#[verifier::opaque]
pub open spec fn parse_number(input: Seq<u8>) -> Option<(u64, Seq<u8>)> {
    if input.len() >= 8 {
        parsed(spec_u64_from_le_bytes(input.take(8)), input.skip(8))
    } else {
        None
    }
}

/// A number that was written is read back, and what followed it is left.
pub proof fn lemma_parse_number(x: u64, rest: Seq<u8>)
    ensures
        number_bytes(x).len() == 8,
        parse_number(number_bytes(x) + rest) == parsed(x, rest),
{
    reveal(parse_number);
    lemma_auto_spec_u64_to_from_le_bytes();
    let input = number_bytes(x) + rest;
    assert(input.take(8) =~= number_bytes(x));
    assert(input.skip(8) =~= rest);
}

/// A number that was read had been written at the front of the input.
pub proof fn lemma_number_was_written(input: Seq<u8>)
    requires
        parse_number(input) is Some,
    ensures
        input == number_bytes(value(parse_number(input))) + rest(parse_number(input)),
{
    reveal(parse_number);
    lemma_auto_spec_u64_to_from_le_bytes();
    assert(spec_u64_to_le_bytes(spec_u64_from_le_bytes(input.take(8))) == input.take(8));
    assert(input =~= input.take(8) + input.skip(8));
}

/// Appends the bytes of a number.
pub(crate) fn write_number(out: &mut Vec<u8>, x: u64)
    ensures
        final(out)@ == old(out)@ + number_bytes(x),
{
    let bytes = u64_to_le_bytes(x);
    out.extend_from_slice(bytes.as_slice());
    assert(out@ =~= old(out)@ + number_bytes(x));
}

/// Reads a number at `pos`.
pub(crate) fn read_number(input: &[u8], pos: usize) -> (r: Option<(u64, usize)>)
    requires
        pos <= input@.len(),
    ensures
        match r {
            Some((x, next)) => pos <= next <= input@.len() && parse_number(input@.skip(pos as int))
                == parsed(x, input@.skip(next as int)),
            None => parse_number(input@.skip(pos as int)) is None,
        },
{
    proof {
        reveal(parse_number);
    }
    if input.len() - pos < 8 {
        return None;
    }
    let x = u64_from_le_bytes(slice_subrange(input, pos, pos + 8));
    proof {
        assert(input@.skip(pos as int).take(8) =~= input@.subrange(pos as int, pos + 8));
        assert(input@.skip(pos as int).skip(8) =~= input@.skip(pos + 8));
    }
    Some((x, pos + 8))
}

/// Whether a length can be written as a number.
pub open spec fn fits(len: nat) -> bool {
    len <= u64::MAX
}

/// The bytes of a run of bytes: its length, then the run.
pub open spec fn run_bytes(run: Seq<u8>) -> Seq<u8> {
    number_bytes(run.len() as u64) + run
}

/// Reads a run of bytes from the front of `input`.
#[verifier::opaque]
pub open spec fn parse_run(input: Seq<u8>) -> Option<(Seq<u8>, Seq<u8>)> {
    match parse_number(input) {
        Some((len, rest)) => if len <= rest.len() {
            parsed(rest.take(len as int), rest.skip(len as int))
        } else {
            None
        },
        None => None,
    }
}

/// A run that was written is read back, and what followed it is left.
pub proof fn lemma_parse_run(run: Seq<u8>, rest: Seq<u8>)
    requires
        fits(run.len()),
    ensures
        parse_run(run_bytes(run) + rest) == parsed(run, rest),
{
    reveal(parse_run);
    let len = run.len() as u64;
    lemma_parse_number(len, run + rest);
    assert(run_bytes(run) + rest =~= number_bytes(len) + (run + rest));
    assert((run + rest).take(len as int) =~= run);
    assert((run + rest).skip(len as int) =~= rest);
}

/// A run that was read had been written at the front of the input.
pub proof fn lemma_run_was_written(input: Seq<u8>)
    requires
        parse_run(input) is Some,
    ensures
        fits(value(parse_run(input)).len()),
        input == run_bytes(value(parse_run(input))) + rest(parse_run(input)),
{
    reveal(parse_run);
    lemma_number_was_written(input);
    let len = value(parse_number(input));
    let behind = rest(parse_number(input));
    let run = behind.take(len as int);
    assert(behind =~= run + behind.skip(len as int));
    assert(input =~= run_bytes(run) + behind.skip(len as int));
}

/// Appends the bytes of a run.
pub(crate) fn write_run(out: &mut Vec<u8>, run: &[u8])
    ensures
        final(out)@ == old(out)@ + run_bytes(run@),
        fits(run@.len()),
{
    write_number(out, run.len() as u64);
    out.extend_from_slice(run);
    assert(out@ =~= old(out)@ + run_bytes(run@));
}

/// Reads a run at `pos`.
pub(crate) fn read_run<'a>(input: &'a [u8], pos: usize) -> (r: Option<(&'a [u8], usize)>)
    requires
        pos <= input@.len(),
    ensures
        match r {
            Some((run, next)) => pos <= next <= input@.len() && parse_run(input@.skip(pos as int))
                == parsed(run@, input@.skip(next as int)),
            None => parse_run(input@.skip(pos as int)) is None,
        },
{
    proof {
        reveal(parse_run);
    }
    match read_number(input, pos) {
        None => None,
        Some((len, start)) => {
            if len > (input.len() - start) as u64 {
                return None;
            }
            let end = start + len as usize;
            let run = slice_subrange(input, start, end);
            proof {
                let rest = input@.skip(start as int);
                assert(rest.take(len as int) =~= input@.subrange(start as int, end as int));
                assert(rest.skip(len as int) =~= input@.skip(end as int));
            }
            Some((run, end))
        },
    }
}

/// Whether the UTF-8 bytes of a text can be written as a run.
pub open spec fn text_fits(text: Seq<char>) -> bool {
    fits(encode_utf8(text).len())
}

/// The bytes of a text: the run of its UTF-8 bytes.
pub open spec fn text_bytes(text: Seq<char>) -> Seq<u8> {
    run_bytes(encode_utf8(text))
}

/// Reads a text from the front of `input`.
#[verifier::opaque]
pub open spec fn parse_text(input: Seq<u8>) -> Option<(Seq<char>, Seq<u8>)> {
    match parse_run(input) {
        Some((raw, rest)) => if valid_utf8(raw) {
            parsed(decode_utf8(raw), rest)
        } else {
            None
        },
        None => None,
    }
}

/// A text that was written is read back, and what followed it is left.
pub proof fn lemma_parse_text(text: Seq<char>, rest: Seq<u8>)
    requires
        text_fits(text),
    ensures
        parse_text(text_bytes(text) + rest) == parsed(text, rest),
{
    reveal(parse_text);
    lemma_parse_run(encode_utf8(text), rest);
    vstd::utf8::encode_utf8_valid_utf8(text);
    vstd::utf8::encode_utf8_decode_utf8(text);
}

/// A text that was read had been written at the front of the input.
pub proof fn lemma_text_was_written(input: Seq<u8>)
    requires
        parse_text(input) is Some,
    ensures
        text_fits(value(parse_text(input))),
        input == text_bytes(value(parse_text(input))) + rest(parse_text(input)),
{
    reveal(parse_text);
    lemma_run_was_written(input);
    vstd::utf8::decode_utf8_encode_utf8(value(parse_run(input)));
}

/// `String::from_utf8` of the standard library: it gives a text exactly
/// when the bytes are valid UTF-8, and the text then holds these bytes.
#[verifier::external_body]
fn text_from_utf8(raw: Vec<u8>) -> (text: Option<String>)
    ensures
        text is Some <==> valid_utf8(raw@),
        text matches Some(t) ==> encode_utf8(t@) == raw@,
{
    String::from_utf8(raw).ok()
}

/// Appends the bytes of a text.
pub(crate) fn write_text(out: &mut Vec<u8>, text: &str)
    ensures
        final(out)@ == old(out)@ + text_bytes(text@),
        text_fits(text@),
{
    write_run(out, text.as_bytes());
}

/// Reads a text at `pos`.
pub(crate) fn read_text(input: &[u8], pos: usize) -> (r: Option<(String, usize)>)
    requires
        pos <= input@.len(),
    ensures
        match r {
            Some((text, next)) => pos <= next <= input@.len() && parse_text(
                input@.skip(pos as int),
            ) == parsed(text@, input@.skip(next as int)),
            None => parse_text(input@.skip(pos as int)) is None,
        },
{
    proof {
        reveal(parse_text);
    }
    match read_run(input, pos) {
        None => None,
        Some((raw, next)) => match text_from_utf8(slice_to_vec(raw)) {
            None => None,
            Some(text) => {
                proof {
                    vstd::utf8::encode_utf8_decode_utf8(text@);
                }
                Some((text, next))
            },
        },
    }
}

/// Whether an optional text can be written.
pub open spec fn optional_text_fits(text: Option<Seq<char>>) -> bool {
    text matches Some(t) ==> text_fits(t)
}

/// The bytes of an optional text: 0, or 1 and the text.
pub open spec fn optional_text_bytes(text: Option<Seq<char>>) -> Seq<u8> {
    match text {
        Some(t) => seq![1u8] + text_bytes(t),
        None => seq![0u8],
    }
}

/// Reads an optional text from the front of `input`.
#[verifier::opaque]
pub open spec fn parse_optional_text(input: Seq<u8>) -> Option<(Option<Seq<char>>, Seq<u8>)> {
    if input.len() == 0 {
        None
    } else if input[0] == 0 {
        parsed(None, input.skip(1))
    } else if input[0] == 1 {
        match parse_text(input.skip(1)) {
            Some((t, rest)) => parsed(Some(t), rest),
            None => None,
        }
    } else {
        None
    }
}

/// An optional text that was written is read back, and what followed it is
/// left.
pub proof fn lemma_parse_optional_text(text: Option<Seq<char>>, rest: Seq<u8>)
    requires
        optional_text_fits(text),
    ensures
        parse_optional_text(optional_text_bytes(text) + rest) == parsed(text, rest),
{
    reveal(parse_optional_text);
    let input = optional_text_bytes(text) + rest;
    match text {
        Some(t) => {
            lemma_parse_text(t, rest);
            assert(input.skip(1) =~= text_bytes(t) + rest);
        },
        None => {
            assert(input.skip(1) =~= rest);
        },
    }
}

/// An optional text that was read had been written at the front of the
/// input.
pub proof fn lemma_optional_text_was_written(input: Seq<u8>)
    requires
        parse_optional_text(input) is Some,
    ensures
        optional_text_fits(value(parse_optional_text(input))),
        input == optional_text_bytes(value(parse_optional_text(input))) + rest(
            parse_optional_text(input),
        ),
{
    reveal(parse_optional_text);
    if input[0] == 0 {
        assert(input =~= seq![0u8] + input.skip(1));
    } else {
        lemma_text_was_written(input.skip(1));
        let text = value(parse_text(input.skip(1)));
        let left = rest(parse_text(input.skip(1)));
        assert(input =~= seq![1u8] + input.skip(1));
        assert(input =~= seq![1u8] + text_bytes(text) + left);
    }
}

/// Appends the bytes of an optional text.
pub(crate) fn write_optional_text(out: &mut Vec<u8>, text: &Option<String>)
    ensures
        final(out)@ == old(out)@ + optional_text_bytes(optional_text(*text)),
        optional_text_fits(optional_text(*text)),
{
    match text {
        Some(t) => {
            out.push(1);
            write_text(out, t.as_str());
            assert(out@ =~= old(out)@ + optional_text_bytes(optional_text(*text)));
        },
        None => {
            out.push(0);
            assert(out@ =~= old(out)@ + optional_text_bytes(optional_text(*text)));
        },
    }
}

/// Reads an optional text at `pos`.
pub(crate) fn read_optional_text(input: &[u8], pos: usize) -> (r: Option<(Option<String>, usize)>)
    requires
        pos <= input@.len(),
    ensures
        match r {
            Some((text, next)) => pos <= next <= input@.len() && parse_optional_text(
                input@.skip(pos as int),
            ) == parsed(optional_text(text), input@.skip(next as int)),
            None => parse_optional_text(input@.skip(pos as int)) is None,
        },
{
    proof {
        reveal(parse_optional_text);
    }
    if pos >= input.len() {
        return None;
    }
    let mark = input[pos];
    proof {
        assert(input@.skip(pos as int)[0] == mark);
        assert(input@.skip(pos as int).skip(1) =~= input@.skip(pos + 1));
    }
    if mark == 0 {
        Some((None, pos + 1))
    } else if mark == 1 {
        match read_text(input, pos + 1) {
            Some((t, next)) => Some((Some(t), next)),
            None => None,
        }
    } else {
        None
    }
}

/// Whether a list of texts can be written.
pub open spec fn texts_fit(texts: Seq<Seq<char>>) -> bool {
    &&& fits(texts.len())
    &&& forall|i: int| 0 <= i < texts.len() ==> text_fits(#[trigger] texts[i])
}

/// The bytes of the texts of a list, one after the other.
pub open spec fn each_text_bytes(texts: Seq<Seq<char>>) -> Seq<u8>
    decreases texts.len(),
{
    if texts.len() == 0 {
        Seq::empty()
    } else {
        text_bytes(texts[0]) + each_text_bytes(texts.drop_first())
    }
}

/// The bytes of a list of texts: its length, then each text.
pub open spec fn texts_bytes(texts: Seq<Seq<char>>) -> Seq<u8> {
    number_bytes(texts.len() as u64) + each_text_bytes(texts)
}

/// Reads `count` texts from the front of `input`.
pub open spec fn parse_each_text(input: Seq<u8>, count: nat) -> Option<(Seq<Seq<char>>, Seq<u8>)>
    decreases count,
{
    if count == 0 {
        parsed(Seq::empty(), input)
    } else {
        match parse_text(input) {
            Some((first, rest)) => match parse_each_text(rest, (count - 1) as nat) {
                Some((others, left)) => parsed(seq![first] + others, left),
                None => None,
            },
            None => None,
        }
    }
}

/// Reads a list of texts from the front of `input`.
#[verifier::opaque]
pub open spec fn parse_texts(input: Seq<u8>) -> Option<(Seq<Seq<char>>, Seq<u8>)> {
    match parse_number(input) {
        Some((count, rest)) => parse_each_text(rest, count as nat),
        None => None,
    }
}

/// Texts that were written one after the other are read back, and what
/// followed them is left.
pub proof fn lemma_parse_each_text(texts: Seq<Seq<char>>, rest: Seq<u8>)
    requires
        forall|i: int| 0 <= i < texts.len() ==> text_fits(#[trigger] texts[i]),
    ensures
        parse_each_text(each_text_bytes(texts) + rest, texts.len()) == parsed(texts, rest),
    decreases texts.len(),
{
    if texts.len() == 0 {
        assert(each_text_bytes(texts) + rest =~= rest);
        assert(texts =~= Seq::empty());
    } else {
        let others = texts.drop_first();
        let tail = each_text_bytes(others) + rest;
        assert(each_text_bytes(texts) + rest =~= text_bytes(texts[0]) + tail);
        lemma_parse_text(texts[0], tail);
        assert forall|i: int| 0 <= i < others.len() implies text_fits(#[trigger] others[i]) by {
            assert(others[i] == texts[i + 1]);
        }
        lemma_parse_each_text(others, rest);
        assert(seq![texts[0]] + others =~= texts);
    }
}

/// A list of texts that was written is read back, and what followed it is
/// left.
pub proof fn lemma_parse_texts(texts: Seq<Seq<char>>, rest: Seq<u8>)
    requires
        texts_fit(texts),
    ensures
        parse_texts(texts_bytes(texts) + rest) == parsed(texts, rest),
{
    reveal(parse_texts);
    let count = texts.len() as u64;
    lemma_parse_number(count, each_text_bytes(texts) + rest);
    assert(texts_bytes(texts) + rest =~= number_bytes(count) + (each_text_bytes(texts) + rest));
    lemma_parse_each_text(texts, rest);
}

/// Texts that were read one after the other had been written at the front
/// of the input, and are as many as were asked for.
pub proof fn lemma_each_text_was_written(input: Seq<u8>, count: nat)
    requires
        parse_each_text(input, count) is Some,
    ensures
        value(parse_each_text(input, count)).len() == count,
        forall|i: int|
            0 <= i < count ==> text_fits(#[trigger] value(parse_each_text(input, count))[i]),
        input == each_text_bytes(value(parse_each_text(input, count))) + rest(
            parse_each_text(input, count),
        ),
    decreases count,
{
    let texts = value(parse_each_text(input, count));
    if count == 0 {
        assert(each_text_bytes(texts) + input =~= input);
    } else {
        lemma_text_was_written(input);
        let first = value(parse_text(input));
        let behind = rest(parse_text(input));
        lemma_each_text_was_written(behind, (count - 1) as nat);
        let others = value(parse_each_text(behind, (count - 1) as nat));
        let left = rest(parse_each_text(behind, (count - 1) as nat));
        assert(texts == seq![first] + others);
        assert(texts.drop_first() =~= others);
        assert(texts[0] == first);
        assert forall|i: int| 0 <= i < count implies text_fits(#[trigger] texts[i]) by {
            if i > 0 {
                assert(texts[i] == others[i - 1]);
            }
        }
        assert(input =~= text_bytes(first) + (each_text_bytes(others) + left));
        assert(input =~= each_text_bytes(texts) + left);
    }
}

/// A list of texts that was read had been written at the front of the
/// input.
pub proof fn lemma_texts_were_written(input: Seq<u8>)
    requires
        parse_texts(input) is Some,
    ensures
        texts_fit(value(parse_texts(input))),
        input == texts_bytes(value(parse_texts(input))) + rest(parse_texts(input)),
{
    reveal(parse_texts);
    lemma_number_was_written(input);
    let count = value(parse_number(input));
    let behind = rest(parse_number(input));
    lemma_each_text_was_written(behind, count as nat);
    let texts = value(parse_each_text(behind, count as nat));
    let left = rest(parse_each_text(behind, count as nat));
    assert(input =~= texts_bytes(texts) + left);
}

/// Writing one more text appends its bytes.
proof fn lemma_each_text_bytes_push(texts: Seq<Seq<char>>, last: Seq<char>)
    ensures
        each_text_bytes(texts.push(last)) == each_text_bytes(texts) + text_bytes(last),
    decreases texts.len(),
{
    let longer = texts.push(last);
    if texts.len() == 0 {
        assert(longer.drop_first() =~= Seq::<Seq<char>>::empty());
        assert(each_text_bytes(longer.drop_first()) =~= Seq::<u8>::empty());
        assert(each_text_bytes(longer) =~= text_bytes(last));
        assert(each_text_bytes(texts) + text_bytes(last) =~= text_bytes(last));
    } else {
        assert(longer.drop_first() =~= texts.drop_first().push(last));
        lemma_each_text_bytes_push(texts.drop_first(), last);
        assert(each_text_bytes(longer) =~= each_text_bytes(texts) + text_bytes(last));
    }
}

/// Reading one text less leaves the last one to read.
proof fn lemma_parse_each_text_step(input: Seq<u8>, count: nat)
    requires
        count > 0,
    ensures
        parse_each_text(input, count) == match parse_text(input) {
            Some((first, rest)) => match parse_each_text(rest, (count - 1) as nat) {
                Some((others, left)) => parsed(seq![first] + others, left),
                None => None,
            },
            None => None,
        },
{
}

/// Appends the bytes of a list of texts.
pub(crate) fn write_texts(out: &mut Vec<u8>, texts: &Vec<String>)
    ensures
        final(out)@ == old(out)@ + texts_bytes(texts.deep_view()),
        texts_fit(texts.deep_view()),
{
    let ghost all = texts.deep_view();
    write_number(out, texts.len() as u64);
    let mut i: usize = 0;
    while i < texts.len()
        invariant
            i <= texts.len(),
            all == texts.deep_view(),
            all.len() == texts.len(),
            out@ == old(out)@ + number_bytes(texts.len() as u64) + each_text_bytes(
                all.take(i as int),
            ),
            forall|j: int| 0 <= j < i ==> text_fits(#[trigger] all[j]),
        decreases texts.len() - i,
    {
        write_text(out, texts[i].as_str());
        proof {
            assert(all[i as int] == texts[i as int]@);
            assert(all.take(i + 1) =~= all.take(i as int).push(all[i as int]));
            lemma_each_text_bytes_push(all.take(i as int), all[i as int]);
            assert(out@ =~= old(out)@ + number_bytes(texts.len() as u64) + each_text_bytes(
                all.take(i + 1),
            ));
        }
        i = i + 1;
    }
    proof {
        assert(all.take(i as int) =~= all);
        assert(out@ =~= old(out)@ + texts_bytes(all));
    }
}

/// Reads a list of texts at `pos`.
pub(crate) fn read_texts(input: &[u8], pos: usize) -> (r: Option<(Vec<String>, usize)>)
    requires
        pos <= input@.len(),
    ensures
        match r {
            Some((texts, next)) => pos <= next <= input@.len() && parse_texts(
                input@.skip(pos as int),
            ) == parsed(texts.deep_view(), input@.skip(next as int)),
            None => parse_texts(input@.skip(pos as int)) is None,
        },
{
    proof {
        reveal(parse_texts);
    }
    let (count, start) = match read_number(input, pos) {
        Some(found) => found,
        None => { return None; },
    };
    let mut texts: Vec<String> = Vec::new();
    let mut at: usize = start;
    let mut done: u64 = 0;
    proof {
        assert(texts.deep_view() =~= Seq::<Seq<char>>::empty());
        let all = parse_each_text(input@.skip(start as int), count as nat);
        if let Some((others, left)) = all {
            assert(texts.deep_view() + others =~= others);
        }
    }
    while done < count
        invariant
            done <= count,
            pos <= at <= input@.len(),
            parse_texts(input@.skip(pos as int)) == parse_each_text(
                input@.skip(start as int),
                count as nat,
            ),
            parse_each_text(input@.skip(start as int), count as nat) == match parse_each_text(
                input@.skip(at as int),
                (count - done) as nat,
            ) {
                Some((others, left)) => parsed(texts.deep_view() + others, left),
                None => None,
            },
        decreases count - done,
    {
        proof {
            lemma_parse_each_text_step(input@.skip(at as int), (count - done) as nat);
        }
        match read_text(input, at) {
            None => { return None; },
            Some((text, next)) => {
                let ghost before = texts.deep_view();
                texts.push(text);
                proof {
                    assert(texts.deep_view() =~= before.push(text@));
                    let later = parse_each_text(
                        input@.skip(next as int),
                        (count - done - 1) as nat,
                    );
                    if let Some((others, left)) = later {
                        assert(before + (seq![text@] + others) =~= texts.deep_view() + others);
                    }
                }
                at = next;
                done = done + 1;
            },
        }
    }
    proof {
        assert(texts.deep_view() + Seq::<Seq<char>>::empty() =~= texts.deep_view());
    }
    Some((texts, at))
}

/// Reads an identifier from the front of `input`.
#[verifier::opaque]
pub open spec fn parse_id(input: Seq<u8>) -> Option<(Seq<u8>, Seq<u8>)> {
    if input.len() >= ID_LEN {
        parsed(input.take(ID_LEN as int), input.skip(ID_LEN as int))
    } else {
        None
    }
}

/// An identifier that was written is read back, and what followed it is
/// left.
pub proof fn lemma_parse_id(id: Seq<u8>, rest: Seq<u8>)
    requires
        id.len() == ID_LEN,
    ensures
        parse_id(id + rest) == parsed(id, rest),
{
    reveal(parse_id);
    assert((id + rest).take(ID_LEN as int) =~= id);
    assert((id + rest).skip(ID_LEN as int) =~= rest);
}

/// An identifier that was read had been written at the front of the input.
pub proof fn lemma_id_was_written(input: Seq<u8>)
    requires
        parse_id(input) is Some,
    ensures
        value(parse_id(input)).len() == ID_LEN,
        input == value(parse_id(input)) + rest(parse_id(input)),
{
    reveal(parse_id);
    assert(input =~= input.take(ID_LEN as int) + input.skip(ID_LEN as int));
}

/// Reads an identifier at `pos`.
pub(crate) fn read_id(input: &[u8], pos: usize) -> (r: Option<([u8; 12], usize)>)
    requires
        pos <= input@.len(),
    ensures
        match r {
            Some((id, next)) => pos <= next <= input@.len() && parse_id(input@.skip(pos as int))
                == parsed(id@, input@.skip(next as int)),
            None => parse_id(input@.skip(pos as int)) is None,
        },
{
    proof {
        reveal(parse_id);
    }
    if input.len() - pos < ID_LEN {
        return None;
    }
    let mut id = [0u8;12];
    let mut i: usize = 0;
    while i < ID_LEN
        invariant
            i <= ID_LEN,
            pos + ID_LEN <= input@.len() <= usize::MAX,
            forall|j: int| 0 <= j < i ==> id@[j] == input@[pos + j],
        decreases ID_LEN - i,
    {
        id[i] = input[pos + i];
        i = i + 1;
    }
    proof {
        assert(input@.skip(pos as int).take(ID_LEN as int) =~= id@);
        assert(input@.skip(pos as int).skip(ID_LEN as int) =~= input@.skip(pos + ID_LEN));
    }
    Some((id, pos + ID_LEN))
}

} // verus!
