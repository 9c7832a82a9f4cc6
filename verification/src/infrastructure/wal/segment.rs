//! Names and numbers of segment files.

use vstd::prelude::*;
use vstd::utf8::encode_utf8;

use crate::text;

verus! {

/// The name of the file of a segment: its number in twenty digits, and `.log`.
pub open spec fn segment_name(id: u64) -> Seq<char> {
    text::padded_decimal(id as nat, 20) + ".log"@
}

/// The number of the segment whose file has this name. The name has 24 bytes,
/// ends in `.log`, and the rest is an unsigned number.
pub open spec fn named_segment(name: Seq<char>) -> Option<u64> {
    if encode_utf8(name).len() == 24 && name.len() >= 4 && name.skip(name.len() - 4) == ".log"@ {
        match text::parsed_unsigned(name.take(name.len() - 4), u64::MAX as nat) {
            Some(n) => Some(n as u64),
            None => None,
        }
    } else {
        None
    }
}

/// The numbers of the segments among some file names.
pub open spec fn named_segments(names: Seq<Seq<char>>) -> Seq<u64>
    decreases names.len(),
{
    if names.len() == 0 {
        Seq::<u64>::empty()
    } else {
        let before = named_segments(names.drop_last());
        match named_segment(names.last()) {
            Some(id) => before.push(id),
            None => before,
        }
    }
}

/// Whether some numbers are in ascending order.
pub open spec fn ascending(ids: Seq<u64>) -> bool {
    forall|i: int, j: int| 0 <= i <= j < ids.len() ==> ids[i] <= ids[j]
}

/// A file name in a directory.
pub open spec fn path_in(dir: Seq<char>, name: Seq<char>) -> Seq<char> {
    if dir.len() == 0 || dir.last() == '/' {
        dir + name
    } else {
        dir + "/"@ + name
    }
}

/// Ten to the power `width`.
pub open spec fn decimal_span(width: nat) -> nat
    decreases width,
{
    if width == 0 {
        1
    } else {
        10 * decimal_span((width - 1) as nat)
    }
}

pub fn segment_filename(id: u64) -> (name: String)
    ensures
        name@ == segment_name(id),
{
    let mut name = text::padded_text(id, 20);
    name.append(".log");
    name
}

pub fn parse_segment_id(name: &str) -> (id: Option<u64>)
    ensures
        id == named_segment(name@),
{
    if name.as_bytes().len() != 24 {
        return None;
    }
    let cs = text::chars_of(name);
    if cs.len() < 4 {
        return None;
    }
    let stem_len: usize = cs.len() - 4;
    let suffix = text::string_of(&cs, stem_len, cs.len());
    proof {
        assert(cs@.subrange(stem_len as int, cs@.len() as int) =~= name@.skip(name@.len() - 4));
        assert(cs@.subrange(0, stem_len as int) =~= name@.take(name@.len() - 4));
    }
    if !text::same_text(suffix.as_str(), ".log") {
        return None;
    }
    let stem = text::string_of(&cs, 0, stem_len);
    text::parse_unsigned(stem.as_str(), u64::MAX)
}

/// The numbers of the segments among the names of the files of a directory, in
/// ascending order.
pub fn list_segments(names: &Vec<String>) -> (ids: Vec<u64>)
    ensures
        ascending(ids@),
        ids@.to_multiset() == named_segments(text::views(names@)).to_multiset(),
{
    broadcast use vstd::seq_lib::group_to_multiset_ensures;

    let mut ids: Vec<u64> = Vec::new();
    let mut i: usize = 0;
    let ghost all = text::views(names@);
    proof {
        assert(all.take(0) =~= Seq::<Seq<char>>::empty());
    }
    while i < names.len()
        invariant
            i <= names@.len(),
            all == text::views(names@),
            ascending(ids@),
            ids@.to_multiset() == named_segments(all.take(i as int)).to_multiset(),
        decreases names@.len() - i,
    {
        proof {
            assert(all.take(i + 1).drop_last() =~= all.take(i as int));
            assert(all.take(i + 1).last() == names@[i as int]@);
        }
        if let Some(id) = parse_segment_id(names[i].as_str()) {
            insert_sorted(&mut ids, id);
            proof {
                let found = named_segments(all.take(i as int));
                assert(named_segments(all.take(i + 1)) == found.push(id));
                found.to_multiset_ensures();
                assert(found.push(id).to_multiset() =~= found.to_multiset().insert(id));
            }
        }
        i = i + 1;
    }
    proof {
        assert(all.take(i as int) =~= all);
    }
    ids
}

/// Puts a number where it keeps the order.
fn insert_sorted(ids: &mut Vec<u64>, id: u64)
    requires
        ascending(old(ids)@),
    ensures
        ascending(final(ids)@),
        final(ids)@.to_multiset() == old(ids)@.to_multiset().insert(id),
{
    broadcast use vstd::seq_lib::group_to_multiset_ensures;

    let mut at: usize = ids.len();
    while at > 0 && ids[at - 1] > id
        invariant
            at <= ids@.len(),
            ids@ == old(ids)@,
            ascending(ids@),
            forall|j: int| at <= j < ids@.len() ==> ids@[j] > id,
        decreases at,
    {
        at = at - 1;
    }
    ids.insert(at, id);
}

/// The path of the file of a segment.
pub fn segment_path(dir: &str, id: u64) -> (path: String)
    ensures
        path@ == path_in(dir@, segment_name(id)),
{
    let name = segment_filename(id);
    let cs = text::chars_of(dir);
    let mut path = String::from_str(dir);
    if cs.len() > 0 && cs[cs.len() - 1] != '/' {
        path.append("/");
    }
    path.append(name.as_str());
    path
}

proof fn lemma_padded(n: nat, width: nat)
    ensures
        text::padded_decimal(n, width).len() == width,
        text::all_digits(text::padded_decimal(n, width)),
        n < decimal_span(width) ==> text::decimal_value(text::padded_decimal(n, width)) == n,
    decreases width,
{
    if width > 0 {
        let front = text::padded_decimal(n / 10, (width - 1) as nat);
        lemma_padded(n / 10, (width - 1) as nat);
        assert(text::padded_decimal(n, width).drop_last() =~= front);
        assert forall|i: int| 0 <= i < width implies text::is_digit(
            #[trigger] text::padded_decimal(n, width)[i],
        ) by {
            if i < width - 1 {
                assert(text::is_digit(front[i]));
            }
        }
    }
}

proof fn lemma_twenty_digits()
    ensures
        u64::MAX < decimal_span(20),
{
    reveal_with_fuel(decimal_span, 21);
}

/// The number of a segment is read back from the name of its file.
pub proof fn law_segment_name_roundtrip(id: u64)
    ensures
        named_segment(segment_name(id)) == Some(id),
{
    let stem = text::padded_decimal(id as nat, 20);
    let name = segment_name(id);
    reveal_strlit(".log");
    lemma_padded(id as nat, 20);
    lemma_twenty_digits();
    assert(name.take(name.len() - 4) =~= stem);
    assert(name.skip(name.len() - 4) =~= ".log"@);
    assert forall|i: int| 0 <= i < name.len() implies (#[trigger] name[i]) as u32 <= 127 by {
        if i < 20 {
            assert(text::is_digit(stem[i]));
        }
    }
    vstd::utf8::is_ascii_chars_encode_utf8(name);
    assert(text::is_digit(stem[0]));
}

/// Whether `a` comes before `b` in the order of their characters, both being of
/// the same length.
pub open spec fn text_before(a: Seq<char>, b: Seq<char>) -> bool {
    exists|k: int|
        0 <= k < a.len() && a.len() == b.len() && #[trigger] a[k] < b[k] && a.take(k) == b.take(k)
}

/// The names of segment files are ordered as the segments are.
pub proof fn law_segment_names_in_order(a: u64, b: u64)
    requires
        a < b,
    ensures
        text_before(segment_name(a), segment_name(b)),
{
    lemma_twenty_digits();
    lemma_padded(a as nat, 20);
    lemma_padded(b as nat, 20);
    lemma_padded_in_order(a as nat, b as nat, 20);
    let x = text::padded_decimal(a as nat, 20);
    let y = text::padded_decimal(b as nat, 20);
    let k = choose|k: int|
        0 <= k < x.len() && x.len() == y.len() && #[trigger] x[k] < y[k] && x.take(k) == y.take(k);
    let p = segment_name(a);
    let q = segment_name(b);
    assert(p[k] == x[k] && q[k] == y[k]);
    assert(p.take(k) =~= x.take(k));
    assert(q.take(k) =~= y.take(k));
}

proof fn lemma_padded_in_order(a: nat, b: nat, width: nat)
    requires
        a < b < decimal_span(width),
    ensures
        text_before(text::padded_decimal(a, width), text::padded_decimal(b, width)),
    decreases width,
{
    let x = text::padded_decimal(a, width);
    let y = text::padded_decimal(b, width);
    lemma_padded(a, width);
    lemma_padded(b, width);
    if width > 0 {
        let w = (width - 1) as nat;
        let p = text::padded_decimal(a / 10, w);
        let q = text::padded_decimal(b / 10, w);
        lemma_padded(a / 10, w);
        lemma_padded(b / 10, w);
        if a / 10 < b / 10 {
            lemma_padded_in_order(a / 10, b / 10, w);
            let k = choose|k: int|
                0 <= k < p.len() && p.len() == q.len() && #[trigger] p[k] < q[k] && p.take(k)
                    == q.take(k);
            assert(x[k] == p[k] && y[k] == q[k]);
            assert(x.take(k) =~= p.take(k));
            assert(y.take(k) =~= q.take(k));
        } else {
            let k = width - 1;
            assert(a / 10 == b / 10);
            assert(x[k] == text::digit(a % 10));
            assert(y[k] == text::digit(b % 10));
            assert(x[k] < y[k]);
            assert(x.take(k) =~= p);
            assert(y.take(k) =~= q);
        }
    }
}

/// The name of a segment is its number in twenty digits, with leading zeros, and
/// then `.log`.
pub proof fn law_segment_name_is_the_number(id: u64)
    ensures
        segment_name(id).len() == 24,
        text::all_digits(segment_name(id).take(20)),
        text::decimal_value(segment_name(id).take(20)) == id,
        segment_name(id)[20] == '.',
        segment_name(id)[21] == 'l',
        segment_name(id)[22] == 'o',
        segment_name(id)[23] == 'g',
{
    reveal_strlit(".log");
    lemma_padded(id as nat, 20);
    lemma_twenty_digits();
    assert(segment_name(id).take(20) =~= text::padded_decimal(id as nat, 20));
}

/// A file is taken for a segment only if its name has 24 bytes, ends with `.log`,
/// and starts with the number of the segment.
pub proof fn law_other_files_are_no_segments(name: Seq<char>)
    ensures
        named_segment(name) matches Some(id) ==> {
            &&& encode_utf8(name).len() == 24
            &&& name.len() >= 4
            &&& name.skip(name.len() - 4) == ".log"@
            &&& text::parsed_unsigned(name.take(name.len() - 4), u64::MAX as nat) == Some(id as nat)
        },
        encode_utf8(name).len() != 24 ==> named_segment(name) is None,
{
}

/// The segments in a directory are those that its files are named after: each
/// such file counts, in the order of the files, and no other one does.
pub proof fn law_segments_are_those_of_the_files(names: Seq<Seq<char>>, name: Seq<char>, id: u64)
    ensures
        named_segments(names).contains(id) <==> exists|i: int|
            0 <= i < names.len() && named_segment(#[trigger] names[i]) == Some(id),
        named_segment(name) matches Some(id) ==> named_segments(names.push(name))
            == named_segments(names).push(id),
        named_segment(name) is None ==> named_segments(names.push(name)) == named_segments(names),
    decreases names.len(),
{
    assert(names.push(name).drop_last() =~= names);
    if names.len() > 0 {
        let front = names.drop_last();
        law_segments_are_those_of_the_files(front, name, id);
        if named_segments(names).contains(id) {
            if named_segments(front).contains(id) {
                let i = choose|i: int|
                    0 <= i < front.len() && named_segment(#[trigger] front[i]) == Some(id);
                assert(names[i] == front[i]);
            } else {
                assert(names[names.len() - 1] == names.last());
                let k = choose|k: int|
                    0 <= k < named_segments(names).len() && named_segments(names)[k] == id;
                if named_segment(names.last()) is Some && k < named_segments(front).len() {
                    assert(named_segments(front)[k] == id);
                }
            }
        }
        if exists|i: int| 0 <= i < names.len() && named_segment(#[trigger] names[i]) == Some(id) {
            let i = choose|i: int|
                0 <= i < names.len() && named_segment(#[trigger] names[i]) == Some(id);
            if i < front.len() {
                assert(front[i] == names[i]);
                let k = choose|k: int|
                    0 <= k < named_segments(front).len() && named_segments(front)[k] == id;
                assert(named_segments(names)[k] == id);
            } else {
                let all = named_segments(names);
                assert(all[all.len() - 1] == id);
            }
        }
    }
}

/// A path in a directory is the directory, one slash, and the name.
pub proof fn law_path_ends_with_the_name(dir: Seq<char>, name: Seq<char>)
    requires
        dir.len() > 0,
    ensures
        dir.is_prefix_of(path_in(dir, name)),
        name.is_suffix_of(path_in(dir, name)),
        path_in(dir, name)[path_in(dir, name).len() - name.len() - 1] == '/',
        dir.last() == '/' ==> path_in(dir, name).len() == dir.len() + name.len(),
        dir.last() != '/' ==> path_in(dir, name).len() == dir.len() + 1 + name.len(),
{
    reveal_strlit("/");
}

/// The name that a segment is given is the one that it is known by.
pub proof fn law_named_segment_is_known(id: u64, name: String, file: &str, known: Option<u64>)
    requires
        call_ensures(segment_filename, (id,), name),
        file@ == name@,
        call_ensures(parse_segment_id, (file,), known),
    ensures
        known == Some(id),
{
    law_segment_name_roundtrip(id);
}

/// The segments of a directory are listed from the first to the last, each as
/// often as a file is named after it, and no other number is.
pub proof fn law_segments_are_listed_in_order(names: Vec<String>, ids: Vec<u64>, id: u64)
    requires
        call_ensures(list_segments, (&names,), ids),
    ensures
        ascending(ids@),
        ids@.contains(id) <==> exists|i: int|
            0 <= i < names@.len() && named_segment((#[trigger] names@[i])@) == Some(id),
{
    let files = text::views(names@);
    let found = named_segments(files);
    law_segments_are_those_of_the_files(files, files[0], id);
    ids@.to_multiset_ensures();
    found.to_multiset_ensures();
    assert(ids@.contains(id) <==> ids@.to_multiset().count(id) > 0);
    assert(found.contains(id) <==> found.to_multiset().count(id) > 0);
    assert(ids@.contains(id) <==> found.contains(id));
    if found.contains(id) {
        let i = choose|i: int|
            0 <= i < files.len() && named_segment(#[trigger] files[i]) == Some(id);
        assert(files[i] == names@[i]@);
    }
    if exists|i: int| 0 <= i < names@.len() && named_segment((#[trigger] names@[i])@) == Some(id) {
        let i = choose|i: int|
            0 <= i < names@.len() && named_segment((#[trigger] names@[i])@) == Some(id);
        assert(files[i] == names@[i]@);
    }
}

} // verus!
