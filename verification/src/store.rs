//! What the relational store holds, as the directory's writes leave it.
//!
//! The store itself is reached by the caller. This is the reading of the
//! three writes that the directory relies on: an insert that a taken key
//! turns into nothing, and an update that overwrites.

use vstd::prelude::*;
use crate::chain::{provisioned, DbWriteView};

verus! {

/// A row of the providers table, without the columns that the store fills
/// in by itself.
#[verifier::ext_equal]
pub struct ProviderRow {
    pub name: Seq<char>,
    pub category: Seq<char>,
    /// Fact column to its value, for the columns that have one.
    pub facts: Map<Seq<char>, Seq<char>>,
}

/// The two tables: categories by name, providers by identity.
#[verifier::ext_equal]
pub struct Tables {
    /// Category name to category identity.
    pub categories: Map<Seq<char>, Seq<char>>,
    /// Provider identity to the rest of its row.
    pub providers: Map<Seq<char>, ProviderRow>,
}

/// Whether a category row has this identity.
pub open spec fn has_category_hash(t: Tables, hash: Seq<char>) -> bool {
    exists|name: Seq<char>|
        #[trigger] t.categories.dom().contains(name) && t.categories[name] == hash
}

/// The name of a category with this identity.
pub open spec fn category_name(t: Tables, hash: Seq<char>) -> Seq<char> {
    choose|name: Seq<char>|
        #[trigger] t.categories.dom().contains(name) && t.categories[name] == hash
}

/// Whether a provider row has this name.
pub open spec fn has_provider_name(t: Tables, name: Seq<char>) -> bool {
    exists|hash: Seq<char>|
        #[trigger] t.providers.dom().contains(hash) && t.providers[hash].name == name
}

/// The tables after a write. A category joins unless its name or identity is
/// taken. A provider joins, under the category that its parent identifies,
/// unless there is no such category or its identity or name is taken. A fact
/// overwrites its column in the row of its provider, if the column and the
/// row exist.
pub open spec fn after_write(t: Tables, w: DbWriteView) -> Tables {
    match w {
        DbWriteView::InsertCategory { hash, name } => {
            if t.categories.dom().contains(name) || has_category_hash(t, hash) {
                t
            } else {
                Tables { categories: t.categories.insert(name, hash), ..t }
            }
        },
        DbWriteView::InsertProvider { parent_hash, hash, name } => {
            if !has_category_hash(t, parent_hash) || t.providers.dom().contains(hash)
                || has_provider_name(t, name) {
                t
            } else {
                Tables {
                    providers: t.providers.insert(
                        hash,
                        ProviderRow {
                            name,
                            category: category_name(t, parent_hash),
                            facts: Map::empty(),
                        },
                    ),
                    ..t
                }
            }
        },
        DbWriteView::SetFact { key, value, hash } => {
            if !provisioned(key) || !t.providers.dom().contains(hash) {
                t
            } else {
                let row = t.providers[hash];
                Tables {
                    providers: t.providers.insert(
                        hash,
                        ProviderRow { facts: row.facts.insert(key, value), ..row },
                    ),
                    ..t
                }
            }
        },
    }
}

/// The tables after the write of a step, if it has one.
pub open spec fn after_step(t: Tables, w: Option<DbWriteView>) -> Tables {
    match w {
        Some(x) => after_write(t, x),
        None => t,
    }
}

/// A write made twice leaves the tables as the write made once.
pub proof fn lemma_write_idempotent(t: Tables, w: DbWriteView)
    ensures
        after_write(after_write(t, w), w) == after_write(t, w),
{
    let once = after_write(t, w);
    match w {
        DbWriteView::InsertCategory { hash, name } => {
            if !(t.categories.dom().contains(name) || has_category_hash(t, hash)) {
                assert(once.categories.dom().contains(name));
            }
        },
        DbWriteView::InsertProvider { parent_hash, hash, name } => {
            if !(!has_category_hash(t, parent_hash) || t.providers.dom().contains(hash)
                || has_provider_name(t, name)) {
                assert(once.providers.dom().contains(hash));
            }
        },
        DbWriteView::SetFact { key, value, hash } => {
            if provisioned(key) && t.providers.dom().contains(hash) {
                let row = t.providers[hash];
                let row1 = once.providers[hash];
                assert(row1.facts.insert(key, value) =~= row1.facts);
                assert(once.providers.insert(
                    hash,
                    ProviderRow { facts: row1.facts.insert(key, value), ..row1 },
                ) =~= once.providers);
            }
        },
    }
}

/// Of two facts written to one column of one provider, the later stands.
pub proof fn lemma_later_fact_stands(
    t: Tables,
    key: Seq<char>,
    hash: Seq<char>,
    first: Seq<char>,
    second: Seq<char>,
)
    requires
        provisioned(key),
        t.providers.dom().contains(hash),
    ensures
        ({
            let once = after_write(t, DbWriteView::SetFact { key, value: first, hash });
            let twice = after_write(once, DbWriteView::SetFact { key, value: second, hash });
            &&& twice.providers.dom().contains(hash)
            &&& twice.providers[hash].facts.dom().contains(key)
            &&& twice.providers[hash].facts[key] == second
            &&& twice == after_write(t, DbWriteView::SetFact { key, value: second, hash })
        }),
{
    let once = after_write(t, DbWriteView::SetFact { key, value: first, hash });
    let twice = after_write(once, DbWriteView::SetFact { key, value: second, hash });
    let direct = after_write(t, DbWriteView::SetFact { key, value: second, hash });
    assert(twice.providers[hash].facts =~= direct.providers[hash].facts);
    assert(twice.providers =~= direct.providers);
}

} // verus!
