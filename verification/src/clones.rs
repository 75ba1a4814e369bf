//! Exness terminal clones: the folder naming scheme `Exness_NN`, reading an
//! index back from a folder name, the order in which existing clones are
//! listed, and the checks and plan for creating clones up to a count.
use vstd::prelude::*;

use crate::text::{
    all_digits, chars_from, digit_char, digit_value, chars_of, digits_value, is_digit, parse_u32_chars, push_decimal,
    spec_decimal, spec_decimal_pad2, spec_parse_u32, starts_with_chars, string_of, unsigned_body,
};

verus! {

/// The prefix of every clone folder name.
pub open spec fn clone_prefix() -> Seq<char> {
    "Exness_"@
}

/// The folder name of clone number `index`: `Exness_` and the index with at
/// least two digits (`format!("Exness_{:02}", index)`).
pub open spec fn spec_clone_dir_name(index: nat) -> Seq<char> {
    clone_prefix() + spec_decimal_pad2(index)
}

/// The clone index a folder name carries: `Exness_` followed by a positive
/// number as `str::parse::<u32>` reads it.
pub open spec fn spec_clone_index(name: Seq<char>) -> Option<u32> {
    if name.len() >= clone_prefix().len() && name.take(clone_prefix().len() as int)
        == clone_prefix() {
        match spec_parse_u32(name.skip(clone_prefix().len() as int)) {
            Some(n) => if n == 0 {
                None
            } else {
                Some(n)
            },
            None => None,
        }
    } else {
        None
    }
}

/// The folder name of clone number `index`.
pub fn exness_clone_dir_name(index: u32) -> (r: String)
    ensures
        r@ == spec_clone_dir_name(index as nat),
{
    let mut v: Vec<char> = chars_of("Exness_");
    if index < 10 {
        v.push('0');
    }
    push_decimal(&mut v, index as u64);
    assert(v@ =~= spec_clone_dir_name(index as nat));
    string_of(&v)
}

/// The clone index in a folder name, if it is one.
pub fn parse_exness_clone_index(name: &str) -> (r: Option<u32>)
    ensures
        r == spec_clone_index(name@),
{
    let chars = chars_of(name);
    let prefix = chars_of("Exness_");
    if !starts_with_chars(&chars, &prefix) {
        return None;
    }
    let rest = chars_from(&chars, prefix.len());
    match parse_u32_chars(&rest) {
        Some(n) => if n == 0 {
            None
        } else {
            Some(n)
        },
        None => None,
    }
}

// ---------------------------------------------------------------------------
// Names parse back to their index
// ---------------------------------------------------------------------------

proof fn lemma_decimal_digits(n: nat)
    ensures
        spec_decimal(n).len() > 0,
        all_digits(spec_decimal(n)),
        digits_value(spec_decimal(n)) == n,
    decreases n,
{
    if n < 10 {
        assert((digit_char(n) as u32) == 48 + n);
        assert(spec_decimal(n).drop_last() =~= Seq::<char>::empty());
        assert(digits_value(Seq::<char>::empty()) == 0);
        assert(spec_decimal(n).last() == digit_char(n));
        assert(digit_value(digit_char(n)) == n);
        assert(digits_value(spec_decimal(n)) == n);
    } else {
        lemma_decimal_digits(n / 10);
        let s = spec_decimal(n);
        assert(s.drop_last() =~= spec_decimal(n / 10));
        assert((digit_char(n % 10) as u32) == 48 + n % 10);
        assert(digit_value(s.last()) == n % 10);
        assert(n == (n / 10) * 10 + n % 10);
        assert(digits_value(s) == digits_value(s.drop_last()) * 10 + digit_value(s.last()));
        assert forall|i: int| 0 <= i < s.len() implies is_digit(#[trigger] s[i]) by {
            if i < s.len() - 1 {
                assert(s[i] == spec_decimal(n / 10)[i]);
            }
        }
    }
}

proof fn lemma_leading_zero(s: Seq<char>)
    ensures
        digits_value(seq!['0'] + s) == digits_value(s),
    decreases s.len(),
{
    if s.len() > 0 {
        lemma_leading_zero(s.drop_last());
        assert((seq!['0'] + s).drop_last() =~= seq!['0'] + s.drop_last());
    } else {
        assert((seq!['0'] + s).drop_last() =~= s);
    }
}

/// Every clone folder name reads back as the index it was made from.
pub proof fn lemma_clone_name_round_trip(index: u32)
    requires
        index >= 1,
    ensures
        spec_clone_index(spec_clone_dir_name(index as nat)) == Some(index),
{
    reveal_strlit("Exness_");
    let name = spec_clone_dir_name(index as nat);
    let digits = spec_decimal_pad2(index as nat);
    lemma_decimal_digits(index as nat);
    assert(name.take(7) =~= clone_prefix());
    assert(name.skip(7) =~= digits);
    if index < 10 {
        lemma_leading_zero(spec_decimal(index as nat));
        assert forall|i: int| 0 <= i < digits.len() implies is_digit(#[trigger] digits[i]) by {
            if i > 0 {
                assert(digits[i] == spec_decimal(index as nat)[i - 1]);
            }
        }
    }
    assert(digits[0] != '+') by {
        assert(is_digit(digits[0]));
    }
    assert(unsigned_body(digits) == digits);
}

// ---------------------------------------------------------------------------
// Listing existing clones
// ---------------------------------------------------------------------------

/// `r` lists the clone folders among `names` by increasing index; folders with
/// the same index keep the order in which they were given (a stable sort).
/// `pos` says where each listed name stands in `names`.
pub open spec fn clone_listing_at(names: Seq<Seq<char>>, r: Seq<Seq<char>>, pos: Seq<int>) -> bool {
    &&& pos.len() == r.len()
    &&& forall|i: int|
        0 <= i < r.len() ==> 0 <= #[trigger] pos[i] < names.len() && r[i] == names[pos[i]]
            && spec_clone_index(r[i]) is Some
    &&& forall|p: int|
        0 <= p < names.len() && (#[trigger] spec_clone_index(names[p])) is Some ==> pos.contains(p)
    &&& forall|i: int, j: int|
        0 <= i < j < r.len() ==> {
            let a = spec_clone_index(r[i])->0;
            let b = spec_clone_index(r[j])->0;
            a < b || (a == b && #[trigger] pos[i] < #[trigger] pos[j])
        }
}

/// `r` is the clone listing of `names`.
pub open spec fn is_clone_listing(names: Seq<Seq<char>>, r: Seq<Seq<char>>) -> bool {
    exists|pos: Seq<int>| clone_listing_at(names, r, pos)
}

/// The clone folders among the given folder names, by increasing clone index
/// (folders with equal index stay in the given order); other names are left out.
pub fn list_clone_names(names: &Vec<String>) -> (r: Vec<String>)
    ensures
        is_clone_listing(crate::lexorder::views(names@), crate::lexorder::views(r@)),
{
    let ghost nv = crate::lexorder::views(names@);
    // (index, position) pairs, kept sorted by index then position
    let mut keyed: Vec<(u32, usize)> = Vec::new();
    let mut p: usize = 0;
    while p < names.len()
        invariant
            p <= names.len(),
            nv == crate::lexorder::views(names@),
            forall|i: int|
                0 <= i < keyed.len() ==> 0 <= (#[trigger] keyed@[i]).1 < p && Some(keyed@[i].0)
                    == spec_clone_index(nv[keyed@[i].1 as int]),
            forall|q: int|
                0 <= q < p && (#[trigger] spec_clone_index(nv[q])) is Some ==> exists|i: int|
                    0 <= i < keyed.len() && keyed@[i].1 == q,
            forall|i: int, j: int|
                0 <= i < j < keyed.len() ==> (#[trigger] keyed@[i]).0 < (#[trigger] keyed@[j]).0
                    || (keyed@[i].0 == keyed@[j].0 && keyed@[i].1 < keyed@[j].1),
        decreases names.len() - p,
    {
        match parse_exness_clone_index(names[p].as_str()) {
            Some(idx) => {
                // insert after every entry whose index is not larger
                let mut k: usize = keyed.len();
                while k > 0 && keyed[k - 1].0 > idx
                    invariant
                        k <= keyed.len(),
                        forall|i: int| k <= i < keyed.len() ==> (#[trigger] keyed@[i]).0 > idx,
                    decreases k,
                {
                    k -= 1;
                }
                let ghost old_keyed = keyed@;
                keyed.insert(k, (idx, p));
                assert forall|i: int, j: int| 0 <= i < j < keyed.len() implies (
                #[trigger] keyed@[i]).0 < (#[trigger] keyed@[j]).0 || (keyed@[i].0 == keyed@[j].0
                    && keyed@[i].1 < keyed@[j].1) by {
                    if j < k {
                        assert(keyed@[i] == old_keyed[i] && keyed@[j] == old_keyed[j]);
                    } else if j == k {
                        assert(keyed@[i] == old_keyed[i]);
                        if k > 0 {
                            assert(!(old_keyed[k - 1].0 > idx));
                            if i < k - 1 {
                                assert(old_keyed[i].0 < old_keyed[k - 1].0 || (old_keyed[i].0
                                    == old_keyed[k - 1].0));
                            }
                        }
                    } else if i == k {
                        assert(keyed@[j] == old_keyed[j - 1]);
                    } else if i < k {
                        assert(keyed@[i] == old_keyed[i] && keyed@[j] == old_keyed[j - 1]);
                        assert(old_keyed[j - 1].0 > idx);
                        if k > 0 {
                            assert(!(old_keyed[k - 1].0 > idx));
                            if i < k - 1 {
                                assert(old_keyed[i].0 < old_keyed[k - 1].0 || (old_keyed[i].0
                                    == old_keyed[k - 1].0));
                            }
                        }
                    } else {
                        assert(keyed@[i] == old_keyed[i - 1] && keyed@[j] == old_keyed[j - 1]);
                    }
                }
                assert forall|q: int|
                    0 <= q < p + 1 && (#[trigger] spec_clone_index(nv[q])) is Some implies exists|
                    i: int,
                | 0 <= i < keyed.len() && keyed@[i].1 == q by {
                    if q == p {
                        assert(keyed@[k as int].1 == q);
                    } else {
                        let i = choose|i: int| 0 <= i < old_keyed.len() && old_keyed[i].1 == q;
                        if i < k {
                            assert(keyed@[i].1 == q);
                        } else {
                            assert(keyed@[i + 1].1 == q);
                        }
                    }
                }
                assert forall|i: int| 0 <= i < keyed.len() implies 0 <= (
                #[trigger] keyed@[i]).1 < p + 1 && Some(keyed@[i].0) == spec_clone_index(
                    nv[keyed@[i].1 as int],
                ) by {
                    if i < k {
                        assert(keyed@[i] == old_keyed[i]);
                    } else if i > k {
                        assert(keyed@[i] == old_keyed[i - 1]);
                    }
                }
            },
            None => {},
        }
        p += 1;
    }
    let mut r: Vec<String> = Vec::new();
    let mut i: usize = 0;
    while i < keyed.len()
        invariant
            i <= keyed.len(),
            r@.len() == i,
            nv == crate::lexorder::views(names@),
            forall|j: int|
                0 <= j < keyed.len() ==> 0 <= (#[trigger] keyed@[j]).1 < names.len() && Some(
                    keyed@[j].0,
                ) == spec_clone_index(nv[keyed@[j].1 as int]),
            forall|j: int| 0 <= j < i ==> (#[trigger] r@[j])@ == nv[keyed@[j].1 as int],
        decreases keyed.len() - i,
    {
        let q = keyed[i].1;
        r.push(names[q].clone());
        i += 1;
    }
    let ghost rv = crate::lexorder::views(r@);
    let ghost pos = keyed@.map_values(|e: (u32, usize)| e.1 as int);
    assert forall|q: int|
        0 <= q < nv.len() && (#[trigger] spec_clone_index(nv[q])) is Some implies pos.contains(
        q,
    ) by {
        let i = choose|i: int| 0 <= i < keyed.len() && keyed@[i].1 == q;
        assert(pos[i] == q);
    }
    assert forall|a: int, b: int| 0 <= a < b < rv.len() implies ({
        let x = spec_clone_index(rv[a])->0;
        let y = spec_clone_index(rv[b])->0;
        x < y || (x == y && #[trigger] pos[a] < #[trigger] pos[b])
    }) by {
        assert(keyed@[a].0 < keyed@[b].0 || (keyed@[a].0 == keyed@[b].0 && keyed@[a].1
            < keyed@[b].1));
        assert(rv[a] == r@[a]@);
        assert(rv[b] == r@[b]@);
    }
    assert forall|j: int| 0 <= j < rv.len() implies 0 <= #[trigger] pos[j] < nv.len() && rv[j]
        == nv[pos[j]] && spec_clone_index(rv[j]) is Some by {
        assert(rv[j] == r@[j]@);
    }
    assert(clone_listing_at(nv, rv, pos));
    r
}

// ---------------------------------------------------------------------------
// Creating clones
// ---------------------------------------------------------------------------

/// Why clone creation was refused before any copy.
#[derive(Clone, Copy, Debug, PartialEq, Eq, Structural)]
pub enum CloneSetupError {
    /// The template terminal directory does not exist.
    TemplateMissing,
    /// The template directory holds no `terminal64.exe`.
    TemplateInvalid,
    /// The requested count is 0.
    CountTooSmall,
}

/// The checks made before creating clones, in the order they are made.
pub fn check_clone_setup(template_exists: bool, terminal_exists: bool, target_count: u32) -> (r:
    Result<(), CloneSetupError>)
    ensures
        r == (if !template_exists {
            Err(CloneSetupError::TemplateMissing)
        } else if !terminal_exists {
            Err(CloneSetupError::TemplateInvalid)
        } else if target_count < 1 {
            Err(CloneSetupError::CountTooSmall)
        } else {
            Ok(())
        }),
{
    if !template_exists {
        Err(CloneSetupError::TemplateMissing)
    } else if !terminal_exists {
        Err(CloneSetupError::TemplateInvalid)
    } else if target_count < 1 {
        Err(CloneSetupError::CountTooSmall)
    } else {
        Ok(())
    }
}

/// The clone counts a creation request may ask for: 1 to 200.
pub open spec fn valid_clone_target(target_count: u32) -> bool {
    1 <= target_count <= 200
}

/// Whether a creation request's count is accepted.
pub fn clone_target_accepted(target_count: u32) -> (r: bool)
    ensures
        r == valid_clone_target(target_count),
{
    1 <= target_count && target_count <= 200
}

/// The folders that make up clones 1 to `target_count`, in order; the ones
/// that do not exist yet are created.
pub fn clone_folder_plan(target_count: u32) -> (r: Vec<String>)
    ensures
        r@.len() == target_count,
        forall|i: int| 0 <= i < target_count ==> (#[trigger] r@[i])@ == spec_clone_dir_name(
            (i + 1) as nat,
        ),
{
    let mut r: Vec<String> = Vec::new();
    let mut i: u32 = 0;
    while i < target_count
        invariant
            i <= target_count,
            r@.len() == i,
            forall|j: int| 0 <= j < i ==> (#[trigger] r@[j])@ == spec_clone_dir_name(
                (j + 1) as nat,
            ),
        decreases target_count - i,
    {
        r.push(exness_clone_dir_name(i + 1));
        i += 1;
    }
    r
}

/// Among the planned folders, those that are not already present, in order.
pub fn folders_to_create(plan: &Vec<String>, present: &Vec<bool>) -> (r: Vec<String>)
    requires
        present.len() == plan.len(),
    ensures
        crate::lexorder::views(r@) == missing_folders(crate::lexorder::views(plan@), present@),
{
    let mut r: Vec<String> = Vec::new();
    let mut i: usize = 0;
    while i < plan.len()
        invariant
            i <= plan.len(),
            present.len() == plan.len(),
            crate::lexorder::views(r@) == missing_folders(
                crate::lexorder::views(plan@).take(i as int),
                present@.take(i as int),
            ),
        decreases plan.len() - i,
    {
        assert(crate::lexorder::views(plan@).take(i + 1).drop_last() =~= crate::lexorder::views(
            plan@,
        ).take(i as int));
        assert(present@.take(i + 1).drop_last() =~= present@.take(i as int));
        if !present[i] {
            r.push(plan[i].clone());
            assert(crate::lexorder::views(r@) =~= missing_folders(
                crate::lexorder::views(plan@).take(i as int),
                present@.take(i as int),
            ).push(plan@[i as int]@));
        }
        i += 1;
    }
    assert(crate::lexorder::views(plan@).take(plan.len() as int) =~= crate::lexorder::views(
        plan@,
    ));
    assert(present@.take(plan.len() as int) =~= present@);
    r
}

/// The planned folders whose `present` flag is false, in order.
pub open spec fn missing_folders(plan: Seq<Seq<char>>, present: Seq<bool>) -> Seq<Seq<char>>
    decreases plan.len(),
{
    if plan.len() == 0 || present.len() != plan.len() {
        Seq::empty()
    } else {
        let rest = missing_folders(plan.drop_last(), present.drop_last());
        if present.last() {
            rest
        } else {
            rest.push(plan.last())
        }
    }
}

} // verus!
