//! The column families of the store and their names.

use vstd::prelude::*;

verus! {

/// A column family: one of the seven the store creates by default, or one
/// named by the user.
#[derive(Debug, Clone, PartialEq, Eq, Hash)]
pub enum ColumnFamily {
    Default,
    Metadata,
    Data,
    Index,
    Cache,
    History,
    Snapshot,
    Custom(String),
}

/// The name of a column family.
pub open spec fn cf_name(cf: ColumnFamily) -> Seq<char> {
    match cf {
        ColumnFamily::Default => "default"@,
        ColumnFamily::Metadata => "metadata"@,
        ColumnFamily::Data => "data"@,
        ColumnFamily::Index => "index"@,
        ColumnFamily::Cache => "cache"@,
        ColumnFamily::History => "history"@,
        ColumnFamily::Snapshot => "snapshot"@,
        ColumnFamily::Custom(name) => name@,
    }
}

/// Whether `n` is the name of one of the seven default column families.
pub open spec fn is_reserved_name(n: Seq<char>) -> bool {
    ||| n == "default"@
    ||| n == "metadata"@
    ||| n == "data"@
    ||| n == "index"@
    ||| n == "cache"@
    ||| n == "history"@
    ||| n == "snapshot"@
}

/// What `ColumnFamily::from_name(n)` gives: the default family of that name,
/// or a custom family holding `n`.
pub open spec fn from_name_result(n: Seq<char>, r: ColumnFamily) -> bool {
    if n == "default"@ {
        r is Default
    } else if n == "metadata"@ {
        r is Metadata
    } else if n == "data"@ {
        r is Data
    } else if n == "index"@ {
        r is Index
    } else if n == "cache"@ {
        r is Cache
    } else if n == "history"@ {
        r is History
    } else if n == "snapshot"@ {
        r is Snapshot
    } else {
        r matches ColumnFamily::Custom(s) && s@ == n
    }
}

/// The seven default column families, in the order the store creates them.
pub open spec fn default_families() -> Seq<ColumnFamily> {
    seq![
        ColumnFamily::Default,
        ColumnFamily::Metadata,
        ColumnFamily::Data,
        ColumnFamily::Index,
        ColumnFamily::Cache,
        ColumnFamily::History,
        ColumnFamily::Snapshot,
    ]
}

/// Two column families are the same family: the same variant, and custom
/// ones with equal names.
pub open spec fn same_family(a: ColumnFamily, b: ColumnFamily) -> bool {
    match a {
        ColumnFamily::Custom(x) => b matches ColumnFamily::Custom(y) && x@ == y@,
        _ => a == b,
    }
}

fn str_eq(a: &str, b: &str) -> (r: bool)
    ensures
        r == (a@ == b@),
{
    let x = a.to_owned();
    let y = b.to_owned();
    x == y
}

impl ColumnFamily {
    pub fn name(&self) -> (r: &str)
        ensures
            r@ == cf_name(*self),
    {
        match self {
            ColumnFamily::Default => "default",
            ColumnFamily::Metadata => "metadata",
            ColumnFamily::Data => "data",
            ColumnFamily::Index => "index",
            ColumnFamily::Cache => "cache",
            ColumnFamily::History => "history",
            ColumnFamily::Snapshot => "snapshot",
            ColumnFamily::Custom(name) => name.as_str(),
        }
    }

    /// The column family named `name`: a default family for the seven
    /// reserved names, a custom one for any other.
    pub fn from_name(name: &str) -> (r: Self)
        ensures
            from_name_result(name@, r),
            cf_name(r) == name@,
    {
        if str_eq(name, "default") {
            ColumnFamily::Default
        } else if str_eq(name, "metadata") {
            ColumnFamily::Metadata
        } else if str_eq(name, "data") {
            ColumnFamily::Data
        } else if str_eq(name, "index") {
            ColumnFamily::Index
        } else if str_eq(name, "cache") {
            ColumnFamily::Cache
        } else if str_eq(name, "history") {
            ColumnFamily::History
        } else if str_eq(name, "snapshot") {
            ColumnFamily::Snapshot
        } else {
            ColumnFamily::Custom(name.to_owned())
        }
    }

    pub fn all_default() -> (r: Vec<Self>)
        ensures
            r@ == default_families(),
    {
        vec![
            ColumnFamily::Default,
            ColumnFamily::Metadata,
            ColumnFamily::Data,
            ColumnFamily::Index,
            ColumnFamily::Cache,
            ColumnFamily::History,
            ColumnFamily::Snapshot,
        ]
    }

    /// The names of the seven default column families, in order.
    pub fn default_names() -> (r: Vec<String>)
        ensures
            r@.len() == 7,
            forall|i: int| 0 <= i < 7 ==> #[trigger] r@[i]@ == cf_name(default_families()[i]),
    {
        let cfs = Self::all_default();
        let mut names: Vec<String> = Vec::new();
        let mut i: usize = 0;
        while i < cfs.len()
            invariant
                0 <= i <= cfs@.len(),
                cfs@ == default_families(),
                names@.len() == i,
                forall|j: int| 0 <= j < i ==> #[trigger] names@[j]@ == cf_name(default_families()[j]),
            decreases cfs@.len() - i,
        {
            let n = cfs[i].name().to_owned();
            names.push(n);
            i = i + 1;
        }
        names
    }
}

/// Reading back the name of a column family gives the same family, except
/// for a custom family that carries one of the seven reserved names (which
/// reads back as the default family of that name).
pub proof fn lemma_from_name_of_name(cf: ColumnFamily, r: ColumnFamily)
    requires
        from_name_result(cf_name(cf), r),
        !(cf is Custom && is_reserved_name(cf_name(cf))),
    ensures
        same_family(r, cf),
{
    reveal_strlit("default");
    reveal_strlit("metadata");
    reveal_strlit("data");
    reveal_strlit("index");
    reveal_strlit("cache");
    reveal_strlit("history");
    reveal_strlit("snapshot");
    let n = cf_name(cf);
    match cf {
        ColumnFamily::Custom(x) => {
            assert(!is_reserved_name(n));
        },
        ColumnFamily::Default => {},
        ColumnFamily::Metadata => {
            assert(n[0] != "default"@[0]);
        },
        ColumnFamily::Data => {
            assert(n[1] != "default"@[1]);
            assert(n[0] != "metadata"@[0]);
        },
        ColumnFamily::Index => {
            assert(n[0] != "default"@[0]);
            assert(n[0] != "metadata"@[0]);
            assert(n[0] != "data"@[0]);
        },
        ColumnFamily::Cache => {
            assert(n[0] != "default"@[0]);
            assert(n[0] != "metadata"@[0]);
            assert(n[0] != "data"@[0]);
            assert(n[0] != "index"@[0]);
        },
        ColumnFamily::History => {
            assert(n[0] != "default"@[0]);
            assert(n[0] != "metadata"@[0]);
            assert(n[0] != "data"@[0]);
            assert(n[0] != "index"@[0]);
            assert(n[0] != "cache"@[0]);
        },
        ColumnFamily::Snapshot => {
            assert(n[0] != "default"@[0]);
            assert(n[0] != "metadata"@[0]);
            assert(n[0] != "data"@[0]);
            assert(n[0] != "index"@[0]);
            assert(n[0] != "cache"@[0]);
            assert(n[0] != "history"@[0]);
        },
    }
}

/// The name of the family read from a name is that name, for every name.
pub proof fn lemma_name_of_from_name(n: Seq<char>, r: ColumnFamily)
    requires
        from_name_result(n, r),
    ensures
        cf_name(r) == n,
{
}

/// The seven default families have seven different names, all reserved.
pub proof fn lemma_default_names_distinct()
    ensures
        forall|i: int, j: int|
            0 <= i < 7 && 0 <= j < 7 && i != j ==> cf_name(default_families()[i]) != cf_name(
                default_families()[j],
            ),
        forall|i: int| 0 <= i < 7 ==> is_reserved_name(#[trigger] cf_name(default_families()[i])),
{
    reveal_strlit("default");
    reveal_strlit("metadata");
    reveal_strlit("data");
    reveal_strlit("index");
    reveal_strlit("cache");
    reveal_strlit("history");
    reveal_strlit("snapshot");
    let d = default_families();
    assert forall|i: int, j: int| 0 <= i < 7 && 0 <= j < 7 && i != j implies cf_name(d[i]) != cf_name(d[j]) by {
        assert(cf_name(d[i]).len() != cf_name(d[j]).len() || cf_name(d[i])[0] != cf_name(d[j])[0] || cf_name(d[i])[1] != cf_name(d[j])[1]);
    }
}

} // verus!
