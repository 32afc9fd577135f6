//! The attachment list of a message: a pipe-delimited record in which the
//! file names stand at a fixed stride.

use crate::text::{
    chars_of, fields_view, split, split_chars, string_of, trim_chars, trimmed_names, views,
};
use vstd::prelude::*;

verus! {

/// What separates the fields of an attachment record.
pub const FIELD_SEPARATOR: char = '|';

/// Index of the field that holds the first file name.
pub const FIRST_NAME_FIELD: usize = 4;

/// Distance between two fields that hold file names.
pub const NAME_FIELD_STRIDE: usize = 3;

/// How many of `count` fields may hold a file name: one for the field at
/// `FIRST_NAME_FIELD` and one for each `NAME_FIELD_STRIDE` fields after it.
pub open spec fn name_field_count(count: nat) -> nat {
    if count > 4 {
        ((count - 4 + 2) / 3) as nat
    } else {
        0
    }
}

/// The fields that may hold a file name: the fifth field and every third
/// field after it.
pub open spec fn name_fields(fields: Seq<Seq<char>>) -> Seq<Seq<char>> {
    Seq::new(name_field_count(fields.len()), |k: int| fields[4 + 3 * k])
}

/// The file names that an attachment record holds: of the fields that may
/// hold one, those that are not empty once they are trimmed.
pub open spec fn file_names(record: Seq<char>) -> Seq<Seq<char>> {
    trimmed_names(name_fields(split(record, FIELD_SEPARATOR)))
}

/// Extracts the attachment file names from the path-list field of a message.
pub fn parse_file_paths(file_path: &str) -> (names: Vec<String>)
    ensures
        views(names@) == file_names(file_path@),
{
    let chars = chars_of(file_path);
    let fields = split_chars(&chars, FIELD_SEPARATOR);
    let ghost candidates = name_fields(fields_view(fields@));
    let count = if fields.len() > FIRST_NAME_FIELD {
        (fields.len() - FIRST_NAME_FIELD + 2) / NAME_FIELD_STRIDE
    } else {
        0
    };
    let mut names: Vec<String> = Vec::new();
    let mut k: usize = 0;
    proof {
        assert(candidates.take(0) =~= Seq::<Seq<char>>::empty());
        assert(views(names@) =~= trimmed_names(candidates.take(0)));
    }
    while k < count
        invariant
            k <= count == candidates.len(),
            count == name_field_count(fields@.len()),
            candidates == name_fields(fields_view(fields@)),
            views(names@) == trimmed_names(candidates.take(k as int)),
        decreases count - k,
    {
        let index = FIRST_NAME_FIELD + NAME_FIELD_STRIDE * k;
        proof {
            assert(candidates.take(k + 1).drop_last() =~= candidates.take(k as int));
            assert(candidates.take(k + 1).last() == fields@[index as int]@);
        }
        let name = trim_chars(&fields[index]);
        if name.len() > 0 {
            let ghost before = names@;
            let owned = string_of(&name);
            names.push(owned);
            proof {
                assert(views(before.push(owned)) =~= views(before).push(name@));
            }
        }
        k = k + 1;
    }
    proof {
        assert(candidates.take(count as int) =~= candidates);
    }
    names
}

} // verus!
