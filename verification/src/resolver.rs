//! Output paths that do not collide: beside the wanted name, the names
//! `stem_1.ext`, `stem_2.ext`, ... are tried in turn until one is free.

use vstd::prelude::*;
use vstd::string::*;
use vstd::set_lib::lemma_len_subset;
use crate::paths::{
    extension, file_stem, join, join_path, path_file_name,
    split_extension, split_stem,
};
use crate::text::{decimal, lemma_decimal_injective, str_eq, to_decimal, views};

verus! {

/// The stem of the file that `filename` names; empty where it names none.
pub open spec fn stem_or_empty(filename: Seq<char>) -> Seq<char> {
    match file_stem(filename) {
        Some(stem) => stem,
        None => Seq::empty(),
    }
}

/// The extension of the file that `filename` names; empty where it has none.
pub open spec fn extension_or_empty(filename: Seq<char>) -> Seq<char> {
    match extension(filename) {
        Some(ext) => ext,
        None => Seq::empty(),
    }
}

/// The name tried at the given attempt: the wanted name at attempt 0, and
/// after that the stem, an underscore, the attempt's number, a dot and the
/// extension.
pub open spec fn candidate_name(filename: Seq<char>, attempt: nat) -> Seq<char> {
    if attempt == 0 {
        filename
    } else {
        stem_or_empty(filename) + seq!['_'] + decimal(attempt) + seq!['.'] + extension_or_empty(
            filename,
        )
    }
}

/// The path tried at the given attempt: the attempt's name inside `dir`.
pub open spec fn candidate(dir: Seq<char>, filename: Seq<char>, attempt: nat) -> Seq<char> {
    join(dir, candidate_name(filename, attempt))
}

/// Whether `path` is the candidate of attempt `attempt`, is not among
/// `existing`, and every earlier candidate is.
pub open spec fn resolves_at(
    dir: Seq<char>,
    filename: Seq<char>,
    existing: Seq<Seq<char>>,
    attempt: nat,
    path: Seq<char>,
) -> bool {
    &&& path == candidate(dir, filename, attempt)
    &&& !existing.contains(path)
    &&& forall|k: nat| k < attempt ==> existing.contains(#[trigger] candidate(dir, filename, k))
}

/// Whether `path` is the first candidate that is not among `existing`.
pub open spec fn is_resolution(
    dir: Seq<char>,
    filename: Seq<char>,
    existing: Seq<Seq<char>>,
    path: Seq<char>,
) -> bool {
    exists|attempt: nat| resolves_at(dir, filename, existing, attempt, path)
}

/// Two texts between the same neighbours are equal where the wholes are.
pub proof fn lemma_infix_cancel(
    before: Seq<char>,
    x: Seq<char>,
    y: Seq<char>,
    after: Seq<char>,
)
    requires
        before + x + after == before + y + after,
    ensures
        x == y,
{
    let whole_x = before + x + after;
    let whole_y = before + y + after;
    assert(whole_x.len() == before.len() + x.len() + after.len());
    assert(whole_y.len() == before.len() + y.len() + after.len());
    let from = before.len() as int;
    assert(whole_x.subrange(from, from + x.len()) =~= x);
    assert(whole_y.subrange(from, from + y.len()) =~= y);
}

/// Two names that begin alike and give one path inside `dir` are one name.
pub proof fn lemma_join_cancel(dir: Seq<char>, x: Seq<char>, y: Seq<char>)
    requires
        x.len() > 0,
        y.len() > 0,
        x[0] == y[0],
        join(dir, x) == join(dir, y),
    ensures
        x == y,
{
    if x[0] == '/' {
    } else if dir.len() == 0 || dir.last() == '/' {
        lemma_infix_cancel(dir, x, y, Seq::empty());
        assert(dir + x + Seq::<char>::empty() =~= dir + x);
        assert(dir + y + Seq::<char>::empty() =~= dir + y);
    } else {
        lemma_infix_cancel(dir + seq!['/'], x, y, Seq::empty());
        assert(dir + seq!['/'] + x + Seq::<char>::empty() =~= dir + seq!['/'] + x);
        assert(dir + seq!['/'] + y + Seq::<char>::empty() =~= dir + seq!['/'] + y);
    }
}

/// Candidates after the first differ from one another.
pub proof fn lemma_candidates_differ(dir: Seq<char>, filename: Seq<char>, a: nat, b: nat)
    requires
        a >= 1,
        b >= 1,
        candidate(dir, filename, a) == candidate(dir, filename, b),
    ensures
        a == b,
{
    let head = stem_or_empty(filename) + seq!['_'];
    let tail = seq!['.'] + extension_or_empty(filename);
    let name_a = candidate_name(filename, a);
    let name_b = candidate_name(filename, b);
    assert(name_a =~= head + decimal(a) + tail);
    assert(name_b =~= head + decimal(b) + tail);
    assert(head.len() > 0);
    assert(name_a[0] == head[0]);
    assert(name_b[0] == head[0]);
    lemma_join_cancel(dir, name_a, name_b);
    lemma_infix_cancel(head, decimal(a), decimal(b), tail);
    lemma_decimal_injective(a, b);
}

/// At most as many candidates after the first can be among `existing` as
/// `existing` has entries.
pub proof fn lemma_taken_candidates_bounded(
    dir: Seq<char>,
    filename: Seq<char>,
    existing: Seq<Seq<char>>,
    n: nat,
)
    requires
        forall|k: nat| 1 <= k <= n ==> existing.contains(#[trigger] candidate(dir, filename, k)),
    ensures
        n <= existing.len(),
{
    let tried = Seq::new(n, |i: int| candidate(dir, filename, (i + 1) as nat));
    assert forall|i: int, j: int| 0 <= i < n && 0 <= j < n && i != j implies tried[i]
        != tried[j] by {
        if tried[i] == tried[j] {
            lemma_candidates_differ(dir, filename, (i + 1) as nat, (j + 1) as nat);
        }
    }
    assert(tried.no_duplicates());
    tried.unique_seq_to_set();
    existing.lemma_cardinality_of_set();
    assert forall|p: Seq<char>| tried.to_set().contains(p) implies existing.to_set().contains(
        p,
    ) by {
        let i = choose|i: int| 0 <= i < tried.len() && tried[i] == p;
        assert(existing.contains(candidate(dir, filename, (i + 1) as nat)));
    }
    vstd::seq_lib::seq_to_set_is_finite(existing);
    lemma_len_subset(tried.to_set(), existing.to_set());
}

/// `existing` admits one resolution only.
pub proof fn lemma_resolution_unique(
    dir: Seq<char>,
    filename: Seq<char>,
    existing: Seq<Seq<char>>,
    p: Seq<char>,
    q: Seq<char>,
)
    requires
        is_resolution(dir, filename, existing, p),
        is_resolution(dir, filename, existing, q),
    ensures
        p == q,
{
    let a = choose|a: nat| resolves_at(dir, filename, existing, a, p);
    let b = choose|b: nat| resolves_at(dir, filename, existing, b, q);
    if a < b {
        assert(existing.contains(candidate(dir, filename, a)));
    } else if b < a {
        assert(existing.contains(candidate(dir, filename, b)));
    }
}

/// Where nothing exists at the wanted name inside `dir`, that path is the
/// resolution.
pub proof fn lemma_free_name_is_kept(
    dir: Seq<char>,
    filename: Seq<char>,
    existing: Seq<Seq<char>>,
)
    requires
        !existing.contains(join(dir, filename)),
    ensures
        is_resolution(dir, filename, existing, join(dir, filename)),
{
    assert(resolves_at(dir, filename, existing, 0, join(dir, filename)));
}

/// Once a resolution is taken too, the next resolution is another path: two
/// compressions of one input into one directory never share an output.
pub proof fn lemma_second_resolution_differs(
    dir: Seq<char>,
    filename: Seq<char>,
    existing: Seq<Seq<char>>,
    first: Seq<char>,
    second: Seq<char>,
)
    requires
        is_resolution(dir, filename, existing, first),
        is_resolution(dir, filename, existing.push(first), second),
    ensures
        second != first,
        !existing.contains(second),
{
    let later = existing.push(first);
    assert(later.last() == first);
    assert(later.contains(first));
    assert forall|p: Seq<char>| existing.contains(p) implies later.contains(p) by {
        let i = choose|i: int| 0 <= i < existing.len() && existing[i] == p;
        assert(later[i] == p);
    }
}

/// The path to try at attempt `attempt` for the file `filename` in `dir`.
pub fn candidate_path(dir: &str, filename: &str, attempt: u128) -> (r: String)
    ensures
        r@ == candidate(dir@, filename@, attempt as nat),
{
    if attempt == 0 {
        return join_path(dir, filename);
    }
    let (mut name, ext): (String, String) = match path_file_name(filename) {
        Some(file) => {
            let ext: String = match split_extension(file.as_str()) {
                Some(ext) => ext,
                None => String::new(),
            };
            (split_stem(file.as_str()), ext)
        },
        None => (String::new(), String::new()),
    };
    proof {
        reveal_strlit("_");
        reveal_strlit(".");
    }
    let number: String = to_decimal(attempt);
    name.append("_");
    name.append(number.as_str());
    name.append(".");
    name.append(ext.as_str());
    assert(name@ =~= candidate_name(filename@, attempt as nat));
    join_path(dir, name.as_str())
}

/// Whether `path` is one of `existing`.
pub fn is_taken(existing: &Vec<String>, path: &str) -> (r: bool)
    ensures
        r == views(existing@).contains(path@),
{
    let mut i: usize = 0;
    while i < existing.len()
        invariant
            i <= existing.len(),
            forall|j: int| 0 <= j < i ==> views(existing@)[j] != path@,
        decreases existing.len() - i,
    {
        if str_eq(existing[i].as_str(), path) {
            assert(views(existing@)[i as int] == path@);
            return true;
        }
        i = i + 1;
    }
    false
}

/// A path for the file `filename` inside `dir` at which nothing exists yet,
/// `existing` being the paths at which something does. The wanted name is
/// kept where it is free; otherwise the first free one of `stem_1.ext`,
/// `stem_2.ext`, ... is taken. A name without stem or extension gives empty
/// parts, never a failure.
pub fn get_unique_filename(dir: &str, filename: &str, existing: &Vec<String>) -> (path: String)
    ensures
        is_resolution(dir@, filename@, views(existing@), path@),
        !views(existing@).contains(path@),
        !views(existing@).contains(join(dir@, filename@)) ==> path@ == join(dir@, filename@),
{
    let mut attempt: u128 = 0;
    let mut path: String = candidate_path(dir, filename, attempt);
    while is_taken(existing, path.as_str())
        invariant
            path@ == candidate(dir@, filename@, attempt as nat),
            attempt <= existing.len() + 1,
            forall|k: nat|
                k < attempt ==> views(existing@).contains(#[trigger] candidate(dir@, filename@, k)),
        decreases existing.len() + 1 - attempt,
    {
        proof {
            assert(views(existing@).len() == existing.len());
            lemma_taken_candidates_bounded(
                dir@,
                filename@,
                views(existing@),
                attempt as nat,
            );
        }
        attempt = attempt + 1;
        path = candidate_path(dir, filename, attempt);
    }
    assert(resolves_at(dir@, filename@, views(existing@), attempt as nat, path@));
    assert(attempt > 0 ==> views(existing@).contains(candidate(dir@, filename@, 0)));
    path
}

} // verus!
