//! Segment discovery: parsing part ordinals out of segment filenames,
//! validating a directory listing against a video's declared part count,
//! and ordering the result by part number.
//!
//! The filesystem walk itself happens outside the library; it hands in
//! the plain entry names (`None` for a name that is not valid text).

use vstd::prelude::*;
use vstd::string::*;
use vstd::multiset::Multiset;
use vstd::seq_lib::group_to_multiset_ensures;
use crate::errors::UploaderError;
use crate::text::str_eq;

verus! {

/// An ASCII decimal digit.
pub open spec fn is_digit(c: char) -> bool {
    '0' <= c && c <= '9'
}

/// The value of one decimal digit character.
pub open spec fn digit_val(c: char) -> int {
    (c as int) - 48
}

/// Every character is a decimal digit.
pub open spec fn all_digits(s: Seq<char>) -> bool {
    forall|i: int| 0 <= i < s.len() ==> is_digit(s[i])
}

/// The value of a decimal digit string.
pub open spec fn digits_val(s: Seq<char>) -> int
    decreases s.len(),
{
    if s.len() == 0 {
        0
    } else {
        digits_val(s.drop_last()) * 10 + digit_val(s.last())
    }
}

/// The digit portion of a part ordinal text: an optional leading `+` is
/// dropped, as the standard unsigned parser does.
pub open spec fn part_digits(s: Seq<char>) -> Seq<char> {
    if s.len() > 0 && s[0] == '+' {
        s.skip(1)
    } else {
        s
    }
}

/// The texts the standard unsigned parser accepts: an optional `+`, then
/// at least one digit.
pub open spec fn is_part_number_str(s: Seq<char>) -> bool {
    part_digits(s).len() > 0 && all_digits(part_digits(s))
}

proof fn lemma_digits_val_nonneg(s: Seq<char>)
    requires
        all_digits(s),
    ensures
        digits_val(s) >= 0,
    decreases s.len(),
{
    if s.len() > 0 {
        assert(all_digits(s.drop_last()));
        lemma_digits_val_nonneg(s.drop_last());
    }
}

/// The value of a digit string is at least the value of any prefix.
proof fn lemma_digits_val_mono(s: Seq<char>, k: int)
    requires
        0 <= k <= s.len(),
        all_digits(s),
    ensures
        digits_val(s.take(k)) <= digits_val(s),
    decreases s.len() - k,
{
    if k == s.len() {
        assert(s.take(k) =~= s);
    } else {
        assert(all_digits(s.take(k)));
        lemma_digits_val_nonneg(s.take(k));
        assert(s.take(k + 1).drop_last() =~= s.take(k));
        assert(digits_val(s.take(k + 1)) == digits_val(s.take(k)) * 10 + digit_val(s[k]));
        lemma_digits_val_mono(s, k + 1);
    }
}

/// Parses a part ordinal as the standard unsigned parser does, refusing
/// values above `usize::MAX`.
fn parse_part_number(s: &str) -> (r: Option<usize>)
    ensures
        is_part_number_str(s@) && digits_val(part_digits(s@)) <= usize::MAX ==> r == Some(
            digits_val(part_digits(s@)) as usize,
        ),
        is_part_number_str(s@) && digits_val(part_digits(s@)) > usize::MAX ==> r is None,
        !is_part_number_str(s@) ==> r is None,
{
    let n = s.unicode_len();
    let start: usize = if n > 0 && s.get_char(0) == '+' {
        1
    } else {
        0
    };
    let ghost digits = part_digits(s@);
    proof {
        assert(digits =~= s@.skip(start as int));
    }
    if start >= n {
        return None;
    }
    let mut v: usize = 0;
    let mut j: usize = start;
    while j < n
        invariant
            n == s@.len(),
            start <= j <= n,
            start < n,
            digits == part_digits(s@),
            digits =~= s@.skip(start as int),
            all_digits(digits.take(j - start)),
            v == digits_val(digits.take(j - start)),
        decreases n - j,
    {
        let c = s.get_char(j);
        if c < '0' || c > '9' {
            proof {
                assert(!is_digit(digits[j - start]));
            }
            return None;
        }
        let d: usize = ((c as u32) - 48) as usize;
        proof {
            assert(digits.take(j + 1 - start).drop_last() =~= digits.take(j - start));
            assert(digits.take(j + 1 - start).last() == digits[j - start]);
            assert(digits_val(digits.take(j + 1 - start)) == v * 10 + d);
            assert(all_digits(digits.take(j + 1 - start)));
        }
        if v > usize::MAX / 10 {
            proof {
                vstd::arithmetic::div_mod::lemma_fundamental_div_mod(usize::MAX as int, 10);
                vstd::arithmetic::div_mod::lemma_mod_bound(usize::MAX as int, 10);
                assert(v * 10 > usize::MAX);
                if is_part_number_str(s@) {
                    lemma_digits_val_mono(digits, j + 1 - start);
                    assert(digits_val(digits) > usize::MAX);
                }
            }
            return None;
        }
        proof {
            vstd::arithmetic::div_mod::lemma_fundamental_div_mod(usize::MAX as int, 10);
            vstd::arithmetic::div_mod::lemma_mod_bound(usize::MAX as int, 10);
            assert(v * 10 <= usize::MAX);
        }
        let v10: usize = v * 10;
        if d > usize::MAX - v10 {
            proof {
                if is_part_number_str(s@) {
                    lemma_digits_val_mono(digits, j + 1 - start);
                    assert(digits_val(digits) > usize::MAX);
                }
            }
            return None;
        }
        v = v10 + d;
        j = j + 1;
    }
    proof {
        assert(digits.take(n - start) =~= digits);
    }
    Some(v)
}

/// The index of the last `.` of a name, or -1 when it has none.
pub open spec fn last_dot(s: Seq<char>) -> int
    decreases s.len(),
{
    if s.len() == 0 {
        -1
    } else if s.last() == '.' {
        s.len() - 1
    } else {
        last_dot(s.drop_last())
    }
}

/// The extension of a filename: what follows its last `.`, provided that
/// dot is not the leading character (a leading dot marks a hidden file,
/// not an extension).
pub open spec fn ext_of(name: Seq<char>) -> Option<Seq<char>> {
    if last_dot(name) >= 1 {
        Some(name.skip(last_dot(name) + 1))
    } else {
        None
    }
}

/// The stem of a filename: what precedes its last `.`, or the whole name
/// when it has no extension.
pub open spec fn stem_of(name: Seq<char>) -> Seq<char> {
    if last_dot(name) >= 1 {
        name.take(last_dot(name))
    } else {
        name
    }
}

fn find_last_dot(s: &str) -> (r: Option<usize>)
    ensures
        r matches Some(i) ==> last_dot(s@) == i && i < s@.len(),
        r is None ==> last_dot(s@) == -1,
{
    let n = s.unicode_len();
    proof {
        assert(s@.take(n as int) =~= s@);
    }
    let mut j: usize = n;
    while j > 0
        invariant
            n == s@.len(),
            j <= n,
            last_dot(s@) == last_dot(s@.take(j as int)),
        decreases j,
    {
        if s.get_char(j - 1) == '.' {
            proof {
                assert(s@.take(j as int).last() == s@[j - 1]);
            }
            return Some(j - 1);
        }
        proof {
            assert(s@.take(j as int).last() == s@[j - 1]);
            assert(s@.take(j as int).drop_last() =~= s@.take(j - 1));
        }
        j = j - 1;
    }
    None
}

/// A filename names a segment: extension `mp4`, a stem the unsigned
/// parser accepts, and an ordinal (stem value plus one) that fits.
pub open spec fn parses_as_part(name: Seq<char>) -> bool {
    &&& ext_of(name) == Some("mp4"@)
    &&& is_part_number_str(stem_of(name))
    &&& digits_val(part_digits(stem_of(name))) + 1 <= usize::MAX
}

/// The 1-based part ordinal a segment filename names.
pub open spec fn part_no_of(name: Seq<char>) -> int {
    digits_val(part_digits(stem_of(name))) + 1
}

/// Parses the 1-based part ordinal out of one directory entry name:
/// the numeric stem plus one, behind the fixed `mp4` extension.
pub fn get_part_number_from_path(name: &str) -> (r: Result<usize, UploaderError>)
    ensures
        parses_as_part(name@) ==> r == Ok::<usize, UploaderError>(part_no_of(name@) as usize),
        !parses_as_part(name@) && ext_of(name@) != Some("mp4"@) ==> r == Err::<
            usize,
            UploaderError,
        >(UploaderError::WrongFileExtension),
        !parses_as_part(name@) && ext_of(name@) == Some("mp4"@) ==> r == Err::<
            usize,
            UploaderError,
        >(UploaderError::ParsePartNumber),
{
    let n = s_len(name);
    match find_last_dot(name) {
        Option::None => Err(UploaderError::WrongFileExtension),
        Option::Some(i) => {
            if i == 0 {
                return Err(UploaderError::WrongFileExtension);
            }
            let ext = name.substring_char(i + 1, n);
            if str_eq(ext, "mp4") {
                proof {
                    assert(ext@ =~= name@.skip(i + 1));
                }
                let stem = name.substring_char(0, i);
                proof {
                    assert(stem@ =~= name@.take(i as int));
                    if is_part_number_str(stem_of(name@)) {
                        lemma_digits_val_nonneg(part_digits(stem_of(name@)));
                    }
                }
                match parse_part_number(stem) {
                    Option::Some(v) => {
                        if v == usize::MAX {
                            Err(UploaderError::ParsePartNumber)
                        } else {
                            Ok(v + 1)
                        }
                    },
                    Option::None => Err(UploaderError::ParsePartNumber),
                }
            } else {
                proof {
                    assert(ext@ =~= name@.skip(i + 1));
                }
                Err(UploaderError::WrongFileExtension)
            }
        },
    }
}

fn s_len(s: &str) -> (n: usize)
    ensures
        n == s@.len(),
{
    s.unicode_len()
}

/// A directory entry name as handed in by the filesystem walk: `None`
/// when the name is not valid text.
pub open spec fn entry_parses(e: Option<String>) -> bool {
    e matches Some(n) && parses_as_part(n@)
}

/// The error one bad directory entry produces.
pub open spec fn entry_error(e: Option<String>) -> UploaderError {
    match e {
        None => UploaderError::ConvertPathToString,
        Some(n) => if ext_of(n@) != Some("mp4"@) {
            UploaderError::WrongFileExtension
        } else {
            UploaderError::ParsePartNumber
        },
    }
}

/// Every entry of the listing names a segment.
pub open spec fn all_parse(names: Seq<Option<String>>) -> bool {
    forall|i: int| 0 <= i < names.len() ==> entry_parses(names[i])
}

/// The index of the first entry that does not name a segment, scanning
/// from `i`; the length when all remaining entries do.
pub open spec fn first_bad_from(names: Seq<Option<String>>, i: int) -> int
    decreases names.len() - i,
{
    if i < 0 || i >= names.len() {
        names.len() as int
    } else if !entry_parses(names[i]) {
        i
    } else {
        first_bad_from(names, i + 1)
    }
}

proof fn lemma_first_bad_skip(names: Seq<Option<String>>, i: int)
    requires
        0 <= i <= names.len(),
        forall|j: int| 0 <= j < i ==> entry_parses(names[j]),
    ensures
        first_bad_from(names, 0) == first_bad_from(names, i),
    decreases i,
{
    if i > 0 {
        lemma_first_bad_skip(names, i - 1);
    }
}

/// The parsed listing, entry by entry, in directory order.
pub open spec fn parsed_parts(names: Seq<Option<String>>) -> Seq<(String, usize)> {
    Seq::new(names.len(), |i: int| (names[i].unwrap(), part_no_of(names[i].unwrap()@) as usize))
}

/// The parts stand in non-decreasing part-number order.
pub open spec fn sorted_by_part(s: Seq<(String, usize)>) -> bool {
    forall|i: int, j: int| 0 <= i < j < s.len() ==> s[i].1 <= s[j].1
}

/// The parts stand in strictly ascending part-number order.
pub open spec fn strictly_sorted_by_part(s: Seq<(String, usize)>) -> bool {
    forall|i: int, j: int| 0 <= i < j < s.len() ==> s[i].1 < s[j].1
}

/// No two entries carry the same part ordinal.
pub open spec fn distinct_ordinals(s: Seq<(String, usize)>) -> bool {
    forall|i: int, j: int| 0 <= i < j < s.len() ==> s[i].1 != s[j].1
}

/// The number of distinct part ordinals of a parsed listing, counting
/// each ordinal at its first occurrence.
pub open spec fn distinct_ordinal_count(s: Seq<(String, usize)>) -> int
    decreases s.len(),
{
    if s.len() == 0 {
        0
    } else {
        let prev = distinct_ordinal_count(s.drop_last());
        if exists|i: int| 0 <= i < s.len() - 1 && (#[trigger] s[i].1) == s[s.len() - 1].1 {
            prev
        } else {
            prev + 1
        }
    }
}

/// Validates a directory listing against the expected segment count and
/// hands back the segments in strictly ascending part-number order.
///
/// Every entry must parse as a segment filename, the listing must hold
/// exactly `count` entries, and no two entries may name the same part;
/// the result then pairs each entry name with its 1-based part ordinal,
/// ordered strictly ascending.
pub fn get_part_files(names: Vec<Option<String>>, count: usize) -> (r: Result<
    Vec<(String, usize)>,
    UploaderError,
>)
    ensures
        r is Ok <==> all_parse(names@) && names@.len() == count && distinct_ordinals(
            parsed_parts(names@),
        ),
        r matches Ok(p) ==> {
            &&& p@.to_multiset() == parsed_parts(names@).to_multiset()
            &&& strictly_sorted_by_part(p@)
            &&& p@.len() == names@.len()
        },
        !all_parse(names@) ==> (r matches Err(e) && e == entry_error(
            names@[first_bad_from(names@, 0)],
        )),
        all_parse(names@) && names@.len() != count ==> (r matches Err(e) && e
            == UploaderError::PartCountMismatch(count, names@.len() as usize)),
        all_parse(names@) && names@.len() == count && !distinct_ordinals(parsed_parts(names@))
            ==> (r matches Err(e) && e == UploaderError::PartCountMismatch(
            count,
            distinct_ordinal_count(parsed_parts(names@)) as usize,
        )),
{
    let mut parts: Vec<(String, usize)> = Vec::new();
    let mut idx: usize = 0;
    while idx < names.len()
        invariant
            idx <= names@.len(),
            forall|j: int| 0 <= j < idx ==> entry_parses(names@[j]),
            parts@ =~= parsed_parts(names@).take(idx as int),
        decreases names@.len() - idx,
    {
        match &names[idx] {
            Option::None => {
                proof {
                    lemma_first_bad_skip(names@, idx as int);
                }
                return Err(UploaderError::ConvertPathToString);
            },
            Option::Some(nm) => {
                match get_part_number_from_path(nm.as_str()) {
                    Result::Err(e) => {
                        proof {
                            lemma_first_bad_skip(names@, idx as int);
                        }
                        return Err(e);
                    },
                    Result::Ok(num) => {
                        parts.push((nm.clone(), num));
                        proof {
                            assert(parts@ =~= parsed_parts(names@).take(idx + 1));
                        }
                    },
                }
            },
        }
        idx = idx + 1;
    }
    proof {
        assert(parts@ =~= parsed_parts(names@));
    }
    if parts.len() != count {
        return Err(UploaderError::PartCountMismatch(count, parts.len()));
    }
    let mut distinct: usize = 0;
    let mut duplicate = false;
    let mut k: usize = 0;
    while k < parts.len()
        invariant
            k <= parts@.len(),
            distinct <= k,
            distinct == distinct_ordinal_count(parts@.take(k as int)),
            duplicate == !distinct_ordinals(parts@.take(k as int)),
        decreases parts@.len() - k,
    {
        let mut found = false;
        let mut i: usize = 0;
        while i < k
            invariant
                i <= k,
                k < parts@.len(),
                found ==> exists|i0: int| 0 <= i0 < i && parts@[i0].1 == parts@[k as int].1,
                !found ==> forall|i0: int| 0 <= i0 < i ==> parts@[i0].1 != parts@[k as int].1,
            decreases k - i,
        {
            if parts[i].1 == parts[k].1 {
                found = true;
            }
            i = i + 1;
        }
        proof {
            let s_new = parts@.take(k + 1);
            let s_old = parts@.take(k as int);
            assert(s_new.drop_last() =~= s_old);
            if found {
                let i0 = choose|i0: int| 0 <= i0 < k && parts@[i0].1 == parts@[k as int].1;
                assert((#[trigger] s_new[i0]).1 == s_new[k as int].1);
                assert(!distinct_ordinals(s_new));
                assert(distinct_ordinal_count(s_new) == distinct_ordinal_count(s_old));
            } else {
                assert forall|i0: int| 0 <= i0 < k implies (#[trigger] s_new[i0]).1 != s_new[
                    k as int
                ].1 by {
                    assert(s_new[i0] == parts@[i0]);
                }
                assert(distinct_ordinal_count(s_new) == distinct_ordinal_count(s_old) + 1);
                if distinct_ordinals(s_old) {
                    assert forall|a: int, b: int|
                        0 <= a < b < s_new.len() implies (#[trigger] s_new[a]).1 != (
                    #[trigger] s_new[b]).1 by {
                        if b < k {
                            assert(s_old[a].1 != s_old[b].1);
                        }
                    }
                } else {
                    let (a, b) = choose|a: int, b: int|
                        0 <= a < b < s_old.len() && (#[trigger] s_old[a]).1 == (
                        #[trigger] s_old[b]).1;
                    assert(s_new[a].1 == s_new[b].1);
                    assert(!distinct_ordinals(s_new));
                }
            }
        }
        if found {
            duplicate = true;
        } else {
            distinct = distinct + 1;
        }
        k = k + 1;
    }
    proof {
        assert(parts@.take(parts@.len() as int) =~= parts@);
    }
    if duplicate {
        return Err(UploaderError::PartCountMismatch(count, distinct));
    }
    let sorted = sort_parts(parts);
    Ok(sorted)
}

/// Orders segments by part number; the result holds exactly the given
/// segments, in strictly ascending order when no ordinal repeats.
fn sort_parts(v: Vec<(String, usize)>) -> (r: Vec<(String, usize)>)
    ensures
        r@.to_multiset() == v@.to_multiset(),
        sorted_by_part(r@),
        distinct_ordinals(v@) ==> strictly_sorted_by_part(r@),
        r@.len() == v@.len(),
{
    broadcast use group_to_multiset_ensures;

    let ghost all_distinct = distinct_ordinals(v@);
    let mut rest = v;
    let mut out: Vec<(String, usize)> = Vec::new();
    proof {
        assert(out@.to_multiset().add(rest@.to_multiset()) =~= rest@.to_multiset());
    }
    while rest.len() > 0
        invariant
            all_distinct == distinct_ordinals(v@),
            out@.to_multiset().add(rest@.to_multiset()) == v@.to_multiset(),
            sorted_by_part(out@),
            forall|i: int, j: int|
                0 <= i < out@.len() && 0 <= j < rest@.len() ==> out@[i].1 <= rest@[j].1,
            all_distinct ==> distinct_ordinals(rest@),
            all_distinct ==> forall|i: int, j: int|
                0 <= i < out@.len() && 0 <= j < rest@.len() ==> out@[i].1 != rest@[j].1,
            all_distinct ==> strictly_sorted_by_part(out@),
            out@.len() + rest@.len() == v@.len(),
        decreases rest.len(),
    {
        let mut k: usize = 1;
        let mut mi: usize = 0;
        while k < rest.len()
            invariant
                rest@.len() > 0,
                k <= rest@.len(),
                mi < k,
                forall|j: int| 0 <= j < k ==> rest@[mi as int].1 <= rest@[j].1,
            decreases rest@.len() - k,
        {
            if rest[k].1 < rest[mi].1 {
                mi = k;
            }
            k = k + 1;
        }
        let ghost rest_old = rest@;
        let ghost out_old = out@;
        let item = rest.remove(mi);
        proof {
            broadcast use vstd::multiset::group_multiset_axioms;

            assert(rest_old.contains(item));
            vstd::seq_lib::to_multiset_remove(rest_old, mi as int);
            vstd::seq_lib::to_multiset_build(out_old, item);
            vstd::seq_lib::to_multiset_contains(rest_old, item);
            assert(out_old.to_multiset().insert(item).add(rest_old.to_multiset().remove(item))
                =~= out_old.to_multiset().add(rest_old.to_multiset()));
        }
        out.push(item);
        proof {
            assert(forall|i: int, j: int|
                0 <= i < out@.len() && 0 <= j < rest@.len() ==> out@[i].1 <= rest@[j].1) by {
                assert(forall|j: int|
                    0 <= j < rest@.len() ==> rest_old.contains(rest@[j]) && item.1 <= rest@[j].1);
            }
            assert(sorted_by_part(out@));
            if all_distinct {
                assert(forall|a: int, b: int|
                    0 <= a < b < rest@.len() ==> rest@[a].1 != rest@[b].1) by {
                    assert(forall|a: int|
                        0 <= a < rest@.len() ==> rest@[a] == (if a < mi {
                            rest_old[a]
                        } else {
                            rest_old[a + 1]
                        }));
                }
                assert(forall|i: int, j: int|
                    0 <= i < out@.len() && 0 <= j < rest@.len() ==> out@[i].1 != rest@[j].1) by {
                    assert(forall|j: int|
                        0 <= j < rest@.len() ==> rest@[j] == (if j < mi {
                            rest_old[j]
                        } else {
                            rest_old[j + 1]
                        }));
                }
                assert(strictly_sorted_by_part(out@)) by {
                    assert(forall|i: int|
                        0 <= i < out_old.len() ==> out@[i].1 <= item.1 && out@[i].1 != item.1);
                }
            }
        }
    }
    proof {
        broadcast use vstd::multiset::group_multiset_axioms;

        rest@.to_multiset_ensures();
        assert(rest@.to_multiset() =~= Multiset::<(String, usize)>::empty());
        assert(out@.to_multiset().add(rest@.to_multiset()) =~= out@.to_multiset());
    }
    out
}

} // verus!
