use crate::error::SubmigError;
use vstd::prelude::*;
use vstd::slice::*;
use vstd::string::*;
use vstd::utf8::*;

verus! {

/// `core::str::Utf8Error`, the error of bytes that are no UTF-8. Nothing
/// is read from it.
#[verifier::external_type_specification]
#[verifier::external_body]
pub struct ExUtf8Error(core::str::Utf8Error);

/// `core::str::from_utf8` accepts exactly the byte strings that are valid
/// UTF-8, and the string slice it returns then has the bytes it was given.
pub assume_specification[ core::str::from_utf8 ](v: &[u8]) -> (r: Result<
    &str,
    core::str::Utf8Error,
>)
    ensures
        r is Ok == valid_utf8(v@),
        r matches Ok(s) ==> s.spec_bytes() == v@,
;

/// The byte that ends a line.
pub const NEWLINE: u8 = 10;

/// The lines of a listing: what stands between its newline bytes, before the
/// first and after the last.
pub open spec fn lines(listing: Seq<u8>) -> Seq<Seq<u8>>
    decreases listing.len(),
{
    if listing.len() == 0 {
        seq![Seq::empty()]
    } else {
        let before = lines(listing.drop_last());
        if listing.last() == NEWLINE {
            before.push(Seq::empty())
        } else {
            before.drop_last().push(before.last().push(listing.last()))
        }
    }
}

/// The lines that are not empty, in their order.
pub open spec fn present(lines: Seq<Seq<u8>>) -> Seq<Seq<u8>> {
    lines.filter(|line: Seq<u8>| line.len() > 0)
}

/// The lines of a listing that are not empty, in their order.
pub open spec fn names(listing: Seq<u8>) -> Seq<Seq<u8>> {
    present(lines(listing))
}

/// Whether every one of the byte strings is valid UTF-8.
pub open spec fn all_text(found: Seq<Seq<u8>>) -> bool {
    forall|k: int| 0 <= k < found.len() ==> valid_utf8(#[trigger] found[k])
}

/// The byte strings read as text, one by one.
pub open spec fn decoded(found: Seq<Seq<u8>>) -> Seq<Seq<char>> {
    Seq::new(found.len(), |k: int| decode_utf8(found[k]))
}

/// The file names that a listing holds: its lines that are not empty, in
/// their order. A listing with a line that is no text is refused.
pub open spec fn listed(listing: Seq<u8>) -> Result<Seq<Seq<char>>, SubmigError> {
    if all_text(names(listing)) {
        Ok(decoded(names(listing)))
    } else {
        Err(SubmigError::Discovery)
    }
}

/// Takes one line of the listing: an empty line is passed over, a line of
/// text is kept as a name, and any other line is reported.
fn keep_name(line: &[u8], out: &mut Vec<String>) -> (kept: bool)
    ensures
        kept == (line@.len() == 0 || valid_utf8(line@)),
        final(out).deep_view() == if line@.len() > 0 && valid_utf8(line@) {
            old(out).deep_view().push(decode_utf8(line@))
        } else {
            old(out).deep_view()
        },
{
    if line.len() == 0 {
        return true;
    }
    match core::str::from_utf8(line) {
        Ok(text) => {
            let ghost before = out.deep_view();
            proof {
                encode_utf8_decode_utf8(text@);
            }
            out.push(text.to_owned());
            assert(out.deep_view() =~= before.push(decode_utf8(line@)));
            true
        },
        Err(_) => false,
    }
}

/// What one more line adds to the names found so far: nothing where it is
/// empty, else itself, to be read as text.
proof fn lemma_line_taken(complete: Seq<Seq<u8>>, line: Seq<u8>)
    ensures
        present(complete.push(line)) == if line.len() > 0 {
            present(complete).push(line)
        } else {
            present(complete)
        },
        line.len() > 0 ==> all_text(present(complete.push(line))) == (all_text(present(complete))
            && valid_utf8(line)),
        line.len() > 0 ==> decoded(present(complete.push(line))) == decoded(
            present(complete),
        ).push(decode_utf8(line)),
{
    reveal(Seq::filter);
    assert(complete.push(line).drop_last() =~= complete);
    let found = present(complete);
    if line.len() > 0 {
        assert(decoded(found.push(line)) =~= decoded(found).push(decode_utf8(line)));
        if all_text(found.push(line)) {
            assert(valid_utf8(found.push(line)[found.len() as int]));
            assert forall|k: int| 0 <= k < found.len() implies valid_utf8(#[trigger] found[k]) by {
                assert(found.push(line)[k] == found[k]);
            }
        }
    }
}

/// Reads the listing that the search for candidate files printed: one file
/// name on each line. Empty lines are passed over, and the names come out in
/// the order of the listing. A listing with a line that is not valid UTF-8
/// is refused as a whole.
pub fn get_files(listing: &[u8]) -> (r: Result<Vec<String>, SubmigError>)
    ensures
        match r {
            Ok(files) => listed(listing@) == Ok::<Seq<Seq<char>>, SubmigError>(files.deep_view()),
            Err(e) => listed(listing@) == Err::<Seq<Seq<char>>, SubmigError>(e),
        },
{
    let mut out: Vec<String> = Vec::new();
    let mut ok = true;
    let mut start: usize = 0;
    let mut i: usize = 0;
    let ghost mut complete: Seq<Seq<u8>> = Seq::empty();
    proof {
        reveal(Seq::filter);
        assert(listing@.take(0) =~= Seq::empty());
        assert(listing@.subrange(0, 0) =~= Seq::empty());
        assert(lines(listing@.take(0)) =~= complete.push(listing@.subrange(0, 0)));
        assert(out.deep_view() =~= decoded(present(complete)));
    }
    while i < listing.len()
        invariant
            start <= i <= listing.len(),
            lines(listing@.take(i as int)) == complete.push(
                listing@.subrange(start as int, i as int),
            ),
            ok == all_text(present(complete)),
            ok ==> out.deep_view() == decoded(present(complete)),
        decreases listing.len() - i,
    {
        let ghost line = listing@.subrange(start as int, i as int);
        assert(listing@.take(i + 1).drop_last() =~= listing@.take(i as int));
        if listing[i] == NEWLINE {
            let kept = keep_name(slice_subrange(listing, start, i), &mut out);
            proof {
                lemma_line_taken(complete, line);
                complete = complete.push(line);
                assert(listing@.subrange(i + 1, i + 1) =~= Seq::empty());
            }
            ok = ok && kept;
            start = i + 1;
        } else {
            assert(listing@.subrange(start as int, i + 1) =~= line.push(listing@[i as int]));
            assert(complete.push(line).drop_last() =~= complete);
        }
        i += 1;
    }
    assert(listing@.take(i as int) =~= listing@);
    let ghost line = listing@.subrange(start as int, i as int);
    let kept = keep_name(slice_subrange(listing, start, i), &mut out);
    proof {
        lemma_line_taken(complete, line);
    }
    if ok && kept {
        Ok(out)
    } else {
        Err(SubmigError::Discovery)
    }
}

} // verus!
