//! Column names from a worksheet's header row.
//!
//! A table cannot be created with the same column name twice, so a header
//! is scanned from left to right and every name that was already assigned
//! is replaced by a generated one, `col1`, `col2`, ... in order of use.

use vstd::prelude::*;
use crate::decimal::{decimal, lemma_decimal_injective, u64_to_decimal};
use crate::text::{contains_text, lemma_texts_push, texts, Text};

verus! {

/// The `k`-th generated column name: `col` followed by `k` in decimal.
pub open spec fn generated_name(k: nat) -> Text {
    seq!['c', 'o', 'l'] + decimal(k)
}

/// How many names of `header` are replaced by a generated name.
pub open spec fn replaced_count(header: Seq<Text>) -> nat
    decreases header.len(),
{
    if header.len() == 0 {
        0
    } else if column_names(header.drop_last()).contains(header.last()) {
        replaced_count(header.drop_last()) + 1
    } else {
        replaced_count(header.drop_last())
    }
}

/// The column names assigned to `header`.
///
/// A name that does not occur among the names assigned to its left is
/// kept. Any other name is replaced by the next generated name, numbered
/// from 1 in order of replacement. A generated name is assigned whether
/// or not it occurs to its left, and counts as assigned from then on.
pub open spec fn column_names(header: Seq<Text>) -> Seq<Text>
    decreases header.len(),
{
    if header.len() == 0 {
        Seq::empty()
    } else {
        let before = column_names(header.drop_last());
        if before.contains(header.last()) {
            before.push(generated_name(replaced_count(header.drop_last()) + 1))
        } else {
            before.push(header.last())
        }
    }
}

/// Every header entry gets exactly one column name.
pub proof fn lemma_column_names_len(header: Seq<Text>)
    ensures
        column_names(header).len() == header.len(),
        replaced_count(header) <= header.len(),
    decreases header.len(),
{
    if header.len() > 0 {
        lemma_column_names_len(header.drop_last());
    }
}

/// The names assigned to the first entries of a header do not depend on
/// the entries that follow.
pub proof fn lemma_column_names_prefix(header: Seq<Text>, len: int)
    requires
        0 <= len <= header.len(),
    ensures
        column_names(header.take(len)) == column_names(header).take(len),
    decreases header.len(),
{
    lemma_column_names_len(header);
    if len == header.len() {
        assert(header.take(len) =~= header);
        assert(column_names(header).take(len) =~= column_names(header));
    } else {
        let shorter = header.drop_last();
        lemma_column_names_prefix(shorter, len);
        lemma_column_names_len(shorter);
        assert(shorter.take(len) =~= header.take(len));
        assert(column_names(shorter).take(len) =~= column_names(header).take(len));
    }
}

/// The name assigned to entry `at`: the entry itself unless it occurs
/// among the names assigned to its left, and otherwise the generated name
/// whose number is one more than the replacements made to its left.
pub proof fn lemma_column_name_at(header: Seq<Text>, at: int)
    requires
        0 <= at < header.len(),
    ensures
        column_names(header).len() == header.len(),
        column_names(header)[at] == if column_names(header).take(at).contains(header[at]) {
            generated_name(replaced_count(header.take(at)) + 1)
        } else {
            header[at]
        },
{
    lemma_column_names_len(header);
    lemma_column_names_prefix(header, at);
    lemma_column_names_prefix(header, at + 1);
    let upto = header.take(at + 1);
    assert(upto.drop_last() =~= header.take(at));
    assert(upto.last() == header[at]);
    lemma_column_names_len(upto);
    assert(column_names(upto)[at] == column_names(header).take(at + 1)[at]);
}

/// A header without repeated names is assigned its own names.
pub proof fn lemma_distinct_header_unchanged(header: Seq<Text>)
    requires
        header.no_duplicates(),
    ensures
        column_names(header) == header,
        replaced_count(header) == 0,
    decreases header.len(),
{
    if header.len() == 0 {
        assert(column_names(header) =~= header);
    } else {
        let shorter = header.drop_last();
        lemma_distinct_header_unchanged(shorter);
        if shorter.contains(header.last()) {
            let j = choose|j: int| 0 <= j < shorter.len() && shorter[j] == header.last();
            assert(header[j] == header[header.len() - 1]);
        }
        assert(column_names(header) =~= header);
    }
}

/// Generated names with different numbers differ.
pub proof fn lemma_generated_name_injective(a: nat, b: nat)
    requires
        generated_name(a) == generated_name(b),
    ensures
        a == b,
{
    let prefix = seq!['c', 'o', 'l'];
    assert(generated_name(a).subrange(3, generated_name(a).len() as int) =~= decimal(a));
    assert(generated_name(b).subrange(3, generated_name(b).len() as int) =~= decimal(b));
    lemma_decimal_injective(a, b);
}

/// Whether no entry of `header` is one of the first `count` generated
/// names.
pub open spec fn avoids_generated_names(header: Seq<Text>, count: nat) -> bool {
    forall|i: int, k: nat|
        0 <= i < header.len() && 1 <= k <= count ==> #[trigger] header[i] != #[trigger] generated_name(
            k,
        )
}

/// Every assigned name is the entry at its place or one of the generated
/// names in use.
proof fn lemma_column_name_origin(header: Seq<Text>, at: int) -> (k: nat)
    requires
        0 <= at < header.len(),
    ensures
        column_names(header).len() == header.len(),
        column_names(header)[at] == header[at] || (1 <= k <= replaced_count(header)
            && column_names(header)[at] == generated_name(k)),
    decreases header.len(),
{
    lemma_column_names_len(header);
    let shorter = header.drop_last();
    lemma_column_names_len(shorter);
    if at == header.len() - 1 {
        replaced_count(header)
    } else {
        lemma_column_name_origin(shorter, at)
    }
}

/// The assigned names are pairwise distinct, provided that no entry of
/// the header is itself one of the generated names in use.
pub proof fn lemma_column_names_distinct(header: Seq<Text>)
    requires
        avoids_generated_names(header, replaced_count(header)),
    ensures
        column_names(header).no_duplicates(),
    decreases header.len(),
{
    if header.len() > 0 {
        let shorter = header.drop_last();
        let before = column_names(shorter);
        let count = replaced_count(shorter);
        lemma_column_names_len(shorter);
        assert(avoids_generated_names(shorter, count)) by {
            assert forall|i: int, k: nat| 0 <= i < shorter.len() && 1 <= k <= count implies #[trigger] shorter[i]
                != #[trigger] generated_name(k) by {
                assert(shorter[i] == header[i]);
            }
        }
        lemma_column_names_distinct(shorter);
        let last = column_names(header).last();
        assert(column_names(header) =~= before.push(last));
        assert forall|j: int| 0 <= j < before.len() implies before[j] != last by {
            if before.contains(header.last()) {
                let k = lemma_column_name_origin(shorter, j);
                if before[j] == shorter[j] {
                    assert(shorter[j] == header[j]);
                    assert(header[j] != generated_name(count + 1));
                } else {
                    if generated_name(k) == generated_name(count + 1) {
                        lemma_generated_name_injective(k, count + 1);
                    }
                }
            }
        }
        assert forall|i: int, j: int|
            0 <= i < column_names(header).len() && 0 <= j < column_names(header).len() && i
                != j implies column_names(header)[i] != column_names(header)[j] by {
            if i < before.len() && j < before.len() {
                assert(before[i] != before[j]);
            }
        }
    }
}

/// The text `col<k>`.
pub fn make_generated_name(k: u64) -> (name: String)
    ensures
        name@ == generated_name(k as nat),
{
    proof {
        reveal_strlit("col");
    }
    let mut name = String::from_str("col");
    let digits = u64_to_decimal(k);
    name.append(digits.as_str());
    assert(name@ =~= generated_name(k as nat));
    name
}

/// Assigns column names to a header row, replacing repeated names.
pub fn rename_duplicates(header: &Vec<String>) -> (names: Vec<String>)
    ensures
        texts(names@) == column_names(texts(header@)),
        names.len() == header.len(),
{
    let ghost all = texts(header@);
    let mut names: Vec<String> = Vec::new();
    let mut replaced: u64 = 0;
    let mut i: usize = 0;
    proof {
        assert(all.take(0) =~= Seq::<Text>::empty());
        assert(texts(names@) =~= Seq::<Text>::empty());
    }
    while i < header.len()
        invariant
            i <= header.len(),
            all == texts(header@),
            names.len() == i,
            texts(names@) == column_names(all.take(i as int)),
            replaced == replaced_count(all.take(i as int)),
            replaced <= i,
        decreases header.len() - i,
    {
        proof {
            assert(all.take(i + 1).drop_last() =~= all.take(i as int));
            assert(all.take(i + 1).last() == header[i as int]@);
        }
        let ghost before = names@;
        if contains_text(&names, &header[i]) {
            replaced += 1;
            let fresh = make_generated_name(replaced);
            names.push(fresh);
            proof {
                lemma_texts_push(before, fresh);
            }
        } else {
            let kept = header[i].clone();
            names.push(kept);
            proof {
                lemma_texts_push(before, kept);
            }
        }
        i += 1;
    }
    proof {
        assert(all.take(i as int) =~= all);
    }
    names
}

} // verus!
