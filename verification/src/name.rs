//! The name field of a record: bytes up to the first NUL, read as UTF-8.

use vstd::prelude::*;
use vstd::slice::*;
use vstd::string::*;
use vstd::utf8::*;
use crate::kind::EntryKind;

verus! {

/// The number of bytes of `field` that come before its first zero byte; all
/// of them where it holds none.
pub open spec fn name_len(field: Seq<u8>) -> nat
    decreases field.len(),
{
    if field.len() == 0 || field[0] == 0 {
        0
    } else {
        1 + name_len(field.drop_first())
    }
}

/// The bytes of the name itself, without the padding that fills the field.
pub open spec fn name_bytes(field: Seq<u8>) -> Seq<u8> {
    field.take(name_len(field) as int)
}

/// What is appended to the name of every source module.
pub open spec fn bytecode_extension() -> Seq<char> {
    seq!['.', 'p', 'y', 'c']
}

/// What `kind` adds to a name: the bytecode extension for a source module,
/// whatever the name ends in, and nothing for any other kind.
pub open spec fn name_suffix(kind: EntryKind) -> Seq<char> {
    if kind == EntryKind::SourceModule {
        bytecode_extension()
    } else {
        Seq::<char>::empty()
    }
}

/// The name that a field of kind `kind` holds, or `None` where the bytes
/// before the first NUL are not UTF-8.
pub open spec fn decoded_name(field: Seq<u8>, kind: EntryKind) -> Option<Seq<char>> {
    if valid_utf8(name_bytes(field)) {
        Some(decode_utf8(name_bytes(field)) + name_suffix(kind))
    } else {
        None
    }
}

/// `name_len` is the one position at or before which no zero byte lies and at
/// which the field ends or holds a zero byte.
pub proof fn lemma_name_len_is(field: Seq<u8>, n: int)
    requires
        0 <= n <= field.len(),
        forall|i: int| 0 <= i < n ==> field[i] != 0,
        n < field.len() ==> field[n] == 0,
    ensures
        name_len(field) == n,
    decreases field.len(),
{
    if n > 0 {
        let rest = field.drop_first();
        assert forall|i: int| 0 <= i < n - 1 implies rest[i] != 0 by {
            assert(rest[i] == field[i + 1]);
        }
        lemma_name_len_is(rest, n - 1);
    }
}

/// What follows the first NUL is padding: whatever it holds, the field's
/// name is the same.
pub proof fn law_padding_is_ignored(name: Seq<u8>, padding: Seq<u8>, kind: EntryKind)
    requires
        forall|i: int| 0 <= i < name.len() ==> name[i] != 0,
    ensures
        name_bytes(name) == name,
        name_bytes(name + seq![0u8] + padding) == name,
        decoded_name(name + seq![0u8] + padding, kind) == decoded_name(name, kind),
{
    let field = name + seq![0u8] + padding;
    lemma_name_len_is(name, name.len() as int);
    lemma_name_len_is(field, name.len() as int);
    assert(field.take(name.len() as int) =~= name);
}

/// The name of a source module is its text with the bytecode extension
/// behind it, whatever the text ends in; the name of any other entry is its
/// text.
pub proof fn law_extension_is_appended(field: Seq<u8>, kind: EntryKind)
    requires
        valid_utf8(name_bytes(field)),
    ensures
        kind == EntryKind::SourceModule ==> decoded_name(field, kind) == Some(
            decode_utf8(name_bytes(field)) + bytecode_extension(),
        ),
        kind != EntryKind::SourceModule ==> decoded_name(field, kind) == Some(
            decode_utf8(name_bytes(field)),
        ),
{
}

/// Calls `String::from_utf8`. Trusted: the bytes become a string exactly
/// when they are well-formed UTF-8, and the string then holds the
/// characters that they encode.
#[verifier::external_body]
fn string_from_utf8(bytes: Vec<u8>) -> (text: Option<String>)
    ensures
        text is Some <==> valid_utf8(bytes@),
        text matches Some(s) ==> s@ == decode_utf8(bytes@),
{
    match String::from_utf8(bytes) {
        Ok(s) => Some(s),
        Err(_) => None,
    }
}

/// Decodes the name field of a record of kind `kind`.
pub fn decode_name(field: &[u8], kind: EntryKind) -> (name: Option<String>)
    ensures
        name is Some <==> decoded_name(field@, kind) is Some,
        name matches Some(s) ==> decoded_name(field@, kind) == Some(s@),
{
    let mut n: usize = 0;
    while n < field.len() && field[n] != 0
        invariant
            n <= field@.len(),
            forall|i: int| 0 <= i < n ==> field@[i] != 0,
        decreases field@.len() - n,
    {
        n += 1;
    }
    proof {
        lemma_name_len_is(field@, n as int);
    }
    let raw: Vec<u8> = slice_to_vec(slice_subrange(field, 0, n));
    match string_from_utf8(raw) {
        None => None,
        Some(mut text) => {
            if kind.is_source_module() {
                proof {
                    reveal_strlit(".pyc");
                }
                text.append(".pyc");
            }
            Some(text)
        },
    }
}

} // verus!
