//! Header and table-name normalization: raw cell text becomes a lower-case,
//! identifier-safe name, and column names are made unique within one sheet by
//! numeric suffixes. Normalization is ASCII-only: a non-ASCII character,
//! letter or not, maps to an underscore, so every produced name is a plain
//! `[a-z][a-z0-9_]*` identifier the store accepts without quoting.

use vstd::prelude::*;
use vstd::seq_lib::*;
use vstd::set_lib::*;
use vstd::string::*;

use crate::text::{
    contains_string, is_ascii_lower_alpha, is_decimal_digit, is_identifier_char,
    lemma_u64_dec_injective, lemma_u64_dec_len_pos, spec_digit_char, normalize_char, push_char, spec_normalize_char,
    spec_u64_dec, u64_to_string,
};

verus! {

/// A normalized name: non-empty, starts with a lower-case ASCII letter, and
/// holds only lower-case letters, digits and underscores.
pub open spec fn valid_identifier(s: Seq<char>) -> bool {
    &&& s.len() > 0
    &&& is_ascii_lower_alpha(s[0])
    &&& forall|i: int| 0 <= i < s.len() ==> is_identifier_char(#[trigger] s[i])
}

/// The views of a vector of strings.
pub open spec fn str_views(v: Seq<String>) -> Seq<Seq<char>> {
    v.map_values(|t: String| t@)
}

/// Character-wise normalization of a raw name.
pub open spec fn spec_base_name(s: Seq<char>) -> Seq<char> {
    s.map_values(|c: char| spec_normalize_char(c))
}

/// The normalized column name before de-duplication: the character-wise
/// normalization, prefixed with `col_` when it does not start with a letter.
pub open spec fn spec_column_base(s: Seq<char>) -> Seq<char> {
    let base = spec_base_name(s);
    if base.len() == 0 || !is_ascii_lower_alpha(base[0]) {
        seq!['c', 'o', 'l', '_'] + base
    } else {
        base
    }
}

/// The normalized table name: as `spec_column_base`, but prefixed with `tbl_`.
pub open spec fn spec_table_name(s: Seq<char>) -> Seq<char> {
    let base = spec_base_name(s);
    if base.len() == 0 || !is_ascii_lower_alpha(base[0]) {
        seq!['t', 'b', 'l', '_'] + base
    } else {
        base
    }
}

/// The candidate column names tried in order: the base itself, then
/// `base_1`, `base_2`, and so on.
pub open spec fn spec_candidate(base: Seq<char>, k: nat) -> Seq<char> {
    if k == 0 {
        base
    } else {
        base + seq!['_'] + spec_u64_dec(k)
    }
}

/// The name chosen for one raw header against a list of taken names: the
/// first candidate — the normalized base, then `base_1`, `base_2`, … — that
/// is not yet taken. Given the taken list and the raw text, exactly one
/// name satisfies this.
pub open spec fn spec_chosen_name(taken: Seq<Seq<char>>, raw: Seq<char>, chosen: Seq<char>) -> bool {
    exists|k: nat|
        {
            &&& chosen == spec_candidate(spec_column_base(raw), k)
            &&& !taken.contains(chosen)
            &&& forall|j: nat|
                j < k ==> taken.contains(#[trigger] spec_candidate(spec_column_base(raw), j))
        }
}

proof fn lemma_normalize_char_identifier(c: char)
    ensures
        is_identifier_char(spec_normalize_char(c)),
{
}

proof fn lemma_u64_dec_digits(n: nat)
    ensures
        forall|i: int|
            0 <= i < spec_u64_dec(n).len() ==> is_decimal_digit(#[trigger] spec_u64_dec(n)[i]),
    decreases n,
{
    if n < 10 {
        assert(spec_u64_dec(n)[0] == spec_digit_char(n as int));
    } else {
        lemma_u64_dec_digits(n / 10);
        assert forall|i: int|
            0 <= i < spec_u64_dec(n).len() implies is_decimal_digit(
            #[trigger] spec_u64_dec(n)[i],
        ) by {
            if i < spec_u64_dec(n).len() - 1 {
                assert(spec_u64_dec(n)[i] == spec_u64_dec(n / 10)[i]);
            } else {
                assert(spec_u64_dec(n)[i] == spec_digit_char((n % 10) as int));
            }
        }
    }
}

proof fn lemma_candidate_valid(base: Seq<char>, k: nat)
    requires
        valid_identifier(base),
    ensures
        valid_identifier(spec_candidate(base, k)),
{
    if k > 0 {
        lemma_u64_dec_digits(k);
        let c = spec_candidate(base, k);
        assert forall|i: int| 0 <= i < c.len() implies is_identifier_char(#[trigger] c[i]) by {
            if i < base.len() {
                assert(c[i] == base[i]);
            } else if i == base.len() {
                assert(c[i] == '_');
            } else {
                assert(c[i] == spec_u64_dec(k)[i - base.len() - 1]);
            }
        }
    }
}

/// Distinct suffix counters give distinct candidate names.
proof fn lemma_candidates_distinct(base: Seq<char>, j: nat, k: nat)
    requires
        j != k,
    ensures
        spec_candidate(base, j) != spec_candidate(base, k),
{
    lemma_u64_dec_len_pos(j);
    lemma_u64_dec_len_pos(k);
    if j == 0 || k == 0 {
        assert(spec_candidate(base, j).len() != spec_candidate(base, k).len());
    } else {
        if spec_candidate(base, j) == spec_candidate(base, k) {
            let n = base.len() as int;
            assert((base + seq!['_'] + spec_u64_dec(j)).skip(n + 1) =~= spec_u64_dec(j));
            assert((base + seq!['_'] + spec_u64_dec(k)).skip(n + 1) =~= spec_u64_dec(k));
            assert(spec_u64_dec(j) == spec_u64_dec(k));
            lemma_u64_dec_injective(j, k);
        }
    }
}

/// If every candidate below `counter` is a member of `views`, then `counter`
/// cannot exceed the number of strings in `views`.
proof fn lemma_candidate_bound(views: Seq<Seq<char>>, base: Seq<char>, counter: nat)
    requires
        forall|j: nat| j < counter ==> views.contains(#[trigger] spec_candidate(base, j)),
    ensures
        counter <= views.len(),
{
    let tried = Seq::new(counter, |j: int| spec_candidate(base, j as nat));
    assert forall|x: int, y: int| 0 <= x < y < tried.len() implies tried[x] != tried[y] by {
        lemma_candidates_distinct(base, x as nat, y as nat);
    }
    assert(tried.no_duplicates());
    tried.unique_seq_to_set();
    assert(tried.to_set() <= views.to_set()) by {
        assert forall|e: Seq<char>| tried.to_set().contains(e) implies views.to_set().contains(
            e,
        ) by {
            let j = choose|j: int| 0 <= j < tried.len() && tried[j] == e;
            assert(views.contains(spec_candidate(base, j as nat)));
        }
    }
    lemma_len_subset(tried.to_set(), views.to_set());
    views.lemma_cardinality_of_set();
}

/// Builds the character-wise normalization of a raw name.
fn base_name(name: &str) -> (r: String)
    ensures
        r@ == spec_base_name(name@),
{
    let len = name.unicode_len();
    let mut out = String::new();
    let mut i: usize = 0;
    assert(out@ =~= spec_base_name(name@.take(0)));
    while i < len
        invariant
            i <= len,
            len == name@.len(),
            out@ == spec_base_name(name@.take(i as int)),
        decreases len - i,
    {
        let c = name.get_char(i);
        push_char(&mut out, normalize_char(c));
        proof {
            assert(name@.take(i + 1).drop_last() =~= name@.take(i as int));
            assert(spec_base_name(name@.take(i + 1)) =~= spec_base_name(name@.take(i as int)).push(
                spec_normalize_char(name@[i as int]),
            ));
        }
        i = i + 1;
    }
    proof {
        assert(name@.take(len as int) =~= name@);
    }
    out
}

/// Prefixes `base` with the given four-character prefix when it does not
/// start with a lower-case ASCII letter.
fn apply_prefix(base: String, prefix: &str) -> (r: String)
    requires
        prefix@.len() == 4,
    ensures
        (base@.len() == 0 || !is_ascii_lower_alpha(base@[0])) ==> r@ == prefix@ + base@,
        !(base@.len() == 0 || !is_ascii_lower_alpha(base@[0])) ==> r@ == base@,
{
    let len = base.as_str().unicode_len();
    let starts_alpha = if len == 0 {
        false
    } else {
        let c = base.as_str().get_char(0);
        let v = c as u32;
        97 <= v && v <= 122
    };
    if !starts_alpha {
        let mut out = String::from_str(prefix);
        out.append(base.as_str());
        out
    } else {
        base
    }
}

/// Normalizes one raw table name into an identifier-safe name with the
/// `tbl_` prefix when needed. No de-duplication is applied.
pub fn clean_table_name(name: &str) -> (r: String)
    ensures
        r@ == spec_table_name(name@),
        valid_identifier(r@),
{
    let base = base_name(name);
    proof {
        reveal_strlit("tbl_");
        assert("tbl_"@ =~= seq!['t', 'b', 'l', '_']);
    }
    let r = apply_prefix(base, "tbl_");
    proof {
        assert(valid_identifier(r@)) by {
            let b = spec_base_name(name@);
            if b.len() == 0 || !is_ascii_lower_alpha(b[0]) {
                assert(r@ == seq!['t', 'b', 'l', '_'] + b);
                assert(r@[0] == 't');
                assert forall|i: int| 0 <= i < r@.len() implies is_identifier_char(
                    #[trigger] r@[i],
                ) by {
                    if i >= 4 {
                        assert(r@[i] == b[i - 4]);
                        assert(b[i - 4] == spec_normalize_char(name@[i - 4]));
                        lemma_normalize_char_identifier(name@[i - 4]);
                    }
                }
            } else {
                assert forall|i: int| 0 <= i < r@.len() implies is_identifier_char(
                    #[trigger] r@[i],
                ) by {
                    assert(r@[i] == spec_normalize_char(name@[i]));
                    lemma_normalize_char_identifier(name@[i]);
                }
            }
        }
    }
    r
}

/// Normalizes one raw column name and makes it unique against the names in
/// `existing_names`: the first candidate among `base`, `base_1`, `base_2`, …
/// that is not yet taken is chosen and recorded.
pub fn clean_column_name(name: &str, existing_names: &mut Vec<String>) -> (r: String)
    ensures
        valid_identifier(r@),
        !str_views(old(existing_names)@).contains(r@),
        final(existing_names)@ == old(existing_names)@.push(r),
        spec_chosen_name(str_views(old(existing_names)@), name@, r@),
{
    let base = base_name(name);
    proof {
        reveal_strlit("col_");
        assert("col_"@ =~= seq!['c', 'o', 'l', '_']);
    }
    let cleaned = apply_prefix(base, "col_");
    let ghost cbase = spec_column_base(name@);
    proof {
        assert(cleaned@ == cbase);
        assert(valid_identifier(cbase)) by {
            let b = spec_base_name(name@);
            if b.len() == 0 || !is_ascii_lower_alpha(b[0]) {
                assert(cbase == seq!['c', 'o', 'l', '_'] + b);
                assert(cbase[0] == 'c');
                assert forall|i: int| 0 <= i < cbase.len() implies is_identifier_char(
                    #[trigger] cbase[i],
                ) by {
                    if i >= 4 {
                        assert(cbase[i] == b[i - 4]);
                        assert(b[i - 4] == spec_normalize_char(name@[i - 4]));
                        lemma_normalize_char_identifier(name@[i - 4]);
                    }
                }
            } else {
                assert forall|i: int| 0 <= i < cbase.len() implies is_identifier_char(
                    #[trigger] cbase[i],
                ) by {
                    assert(cbase[i] == spec_normalize_char(name@[i]));
                    lemma_normalize_char_identifier(name@[i]);
                }
            }
        }
    }
    let ghost views = str_views(existing_names@);
    let cap = existing_names.len();
    let mut candidate = cleaned.clone();
    let mut counter: u64 = 0;
    assert(candidate@ == spec_candidate(cbase, 0));
    loop
        invariant
            valid_identifier(cbase),
            views == str_views(existing_names@),
            existing_names@ == old(existing_names)@,
            cbase == spec_column_base(name@),
            views.len() == cap as nat,
            cleaned@ == cbase,
            counter <= views.len(),
            candidate@ == spec_candidate(cbase, counter as nat),
            forall|j: nat|
                j < counter as nat ==> views.contains(#[trigger] spec_candidate(cbase, j)),
        decreases views.len() + 1 - counter,
    {
        if !contains_string(existing_names, &candidate) {
            proof {
                lemma_candidate_valid(cbase, counter as nat);
            }
            let r = candidate;
            proof {
                let k = counter as nat;
                assert(r@ == spec_candidate(spec_column_base(name@), k));
                assert(!str_views(old(existing_names)@).contains(r@));
                assert(forall|j: nat|
                    j < k ==> str_views(old(existing_names)@).contains(
                        #[trigger] spec_candidate(spec_column_base(name@), j),
                    ));
                assert(spec_chosen_name(str_views(old(existing_names)@), name@, r@));
            }
            let copy = r.clone();
            assert(copy == r);
            existing_names.push(copy);
            assert(existing_names@ =~= old(existing_names)@.push(r));
            return r;
        }
        proof {
            assert(views.contains(spec_candidate(cbase, counter as nat)));
            lemma_candidate_bound(views, cbase, (counter as nat) + 1);
        }
        counter = counter + 1;
        let mut next = cleaned.clone();
        push_char(&mut next, '_');
        let suffix = u64_to_string(counter);
        next.append(suffix.as_str());
        proof {
            assert(next@ =~= cbase + seq!['_'] + spec_u64_dec(counter as nat));
        }
        candidate = next;
    }
}

/// Normalizes a whole header row: one name per raw header, each
/// identifier-valid, pairwise distinct within the row.
pub fn normalize_headers(headers: &Vec<String>) -> (r: Vec<String>)
    ensures
        r@.len() == headers@.len(),
        forall|i: int| 0 <= i < r@.len() ==> valid_identifier(#[trigger] r@[i]@),
        forall|i: int, j: int| 0 <= i < j < r@.len() ==> r@[i]@ != r@[j]@,
        forall|i: int|
            0 <= i < r@.len() ==> spec_chosen_name(
                str_views(r@).take(i),
                headers@[i]@,
                #[trigger] r@[i]@,
            ),
{
    let mut existing: Vec<String> = Vec::new();
    let mut out: Vec<String> = Vec::new();
    let mut i: usize = 0;
    while i < headers.len()
        invariant
            i <= headers.len(),
            out@.len() == i,
            existing@ == out@,
            forall|p: int| 0 <= p < out@.len() ==> valid_identifier(#[trigger] out@[p]@),
            forall|p: int, q: int| 0 <= p < q < out@.len() ==> out@[p]@ != out@[q]@,
            forall|p: int|
                0 <= p < out@.len() ==> spec_chosen_name(
                    str_views(out@).take(p),
                    headers@[p]@,
                    #[trigger] out@[p]@,
                ),
        decreases headers.len() - i,
    {
        let ghost pre_out = out@;
        let name = clean_column_name(headers[i].as_str(), &mut existing);
        proof {
            assert(forall|p: int|
                0 <= p < pre_out.len() ==> str_views(pre_out)[p] == #[trigger] pre_out[p]@);
        }
        out.push(name);
        proof {
            assert forall|p: int| 0 <= p <= pre_out.len() implies #[trigger] str_views(out@).take(p)
                =~= str_views(pre_out).take(p) by {
                assert(forall|q: int|
                    0 <= q < p ==> str_views(out@)[q] == #[trigger] out@[q]@ && out@[q]
                        == pre_out[q]);
            }
            assert(str_views(pre_out).take(pre_out.len() as int) =~= str_views(pre_out));
            assert(spec_chosen_name(str_views(out@).take(pre_out.len() as int), headers@[i as int]@, out@[i as int]@));
        }
        i = i + 1;
    }
    out
}

} // verus!
