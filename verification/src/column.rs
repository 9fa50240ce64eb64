//! The versioned column-layout schema. Generation one holds three fixed
//! named widths; generation two holds an ordered, hideable column list.
//! Both expose one accessor contract, so files written by an older release
//! keep working after an upgrade.

use vstd::prelude::*;

verus! {

/// One column of the second-generation schema: a key unique within the
/// schema, an optional width, and a visibility flag.
#[derive(Debug, Clone, PartialEq)]
pub struct ColumnConfigV2 {
    pub key: String,
    pub width: Option<u16>,
    pub hidden: bool,
}

/// Mathematical model of one second-generation column.
pub struct ColumnSpecModel {
    pub key: Seq<char>,
    pub width: Option<u16>,
    pub hidden: bool,
}

impl View for ColumnConfigV2 {
    type V = ColumnSpecModel;

    open spec fn view(&self) -> ColumnSpecModel {
        ColumnSpecModel { key: self.key@, width: self.width, hidden: self.hidden }
    }
}

/// The model of a stored column sequence.
pub open spec fn cols_model(cs: Seq<ColumnConfigV2>) -> Seq<ColumnSpecModel> {
    cs.map(|i: int, c: ColumnConfigV2| c@)
}

/// The persisted column layout, tagged by schema generation.
#[derive(Debug, Clone, PartialEq)]
pub enum ColumnConfig {
    V1 { local_version_width: u16, remote_version_width: u16, status_width: u16 },
    V2 { columns: Vec<ColumnConfigV2> },
}

/// Mathematical model of the column layout.
pub enum ColumnModel {
    V1 { local: u16, remote: u16, status: u16 },
    V2 { columns: Seq<ColumnSpecModel> },
}

impl View for ColumnConfig {
    type V = ColumnModel;

    open spec fn view(&self) -> ColumnModel {
        match self {
            ColumnConfig::V1 { local_version_width, remote_version_width, status_width } => {
                ColumnModel::V1 {
                    local: *local_version_width,
                    remote: *remote_version_width,
                    status: *status_width,
                }
            },
            ColumnConfig::V2 { columns } => ColumnModel::V2 { columns: cols_model(columns@) },
        }
    }
}

/// The position of the first column with the given key, if any.
pub open spec fn find_key(cols: Seq<ColumnSpecModel>, key: Seq<char>) -> Option<int>
    decreases cols.len(),
{
    if cols.len() == 0 {
        None
    } else if cols[0].key == key {
        Some(0)
    } else {
        match find_key(cols.subrange(1, cols.len() as int), key) {
            Some(i) => Some(i + 1),
            None => None,
        }
    }
}

/// `find_key` returns the first matching position: the position holds the
/// key and no earlier position does.
pub proof fn lemma_find_key_first(cols: Seq<ColumnSpecModel>, key: Seq<char>, i: int)
    requires
        0 <= i < cols.len(),
        cols[i].key == key,
        forall|j: int| 0 <= j < i ==> cols[j].key != key,
    ensures
        find_key(cols, key) == Some(i),
    decreases i,
{
    if i == 0 {
    } else {
        lemma_find_key_first(cols.subrange(1, cols.len() as int), key, i - 1);
    }
}

/// A present `find_key` result is a position of the sequence and holds
/// the key.
pub proof fn lemma_find_key_bounds(cols: Seq<ColumnSpecModel>, key: Seq<char>)
    ensures
        match find_key(cols, key) {
            Some(i) => 0 <= i < cols.len() && cols[i].key == key,
            None => true,
        },
    decreases cols.len(),
{
    if cols.len() > 0 && cols[0].key != key {
        lemma_find_key_bounds(cols.subrange(1, cols.len() as int), key);
    }
}

/// When no column holds the key, `find_key` is absent.
pub proof fn lemma_find_key_none(cols: Seq<ColumnSpecModel>, key: Seq<char>)
    requires
        forall|j: int| 0 <= j < cols.len() ==> cols[j].key != key,
    ensures
        find_key(cols, key) is None,
    decreases cols.len(),
{
    if cols.len() > 0 {
        lemma_find_key_none(cols.subrange(1, cols.len() as int), key);
    }
}

/// The width the schema stores under the given key, if any.
pub open spec fn spec_get_width(m: ColumnModel, key: Seq<char>) -> Option<u16> {
    match m {
        ColumnModel::V1 { local, remote, status } => {
            if key == "local"@ {
                Some(local)
            } else if key == "remote"@ {
                Some(remote)
            } else if key == "status"@ {
                Some(status)
            } else {
                None
            }
        },
        ColumnModel::V2 { columns } => match find_key(columns, key) {
            Some(i) => columns[i].width,
            None => None,
        },
    }
}

/// The position the schema assigns to the given key, if any. Generation
/// one assigns the three known keys fixed positions; generation two uses
/// the index in the stored sequence.
pub open spec fn spec_get_order(m: ColumnModel, key: Seq<char>) -> Option<int> {
    match m {
        ColumnModel::V1 { .. } => {
            if key == "local"@ {
                Some(1)
            } else if key == "remote"@ {
                Some(2)
            } else if key == "status"@ {
                Some(3)
            } else {
                None
            }
        },
        ColumnModel::V2 { columns } => find_key(columns, key),
    }
}

/// The schema after setting the width stored under the given key; a key
/// the schema does not know leaves it unchanged.
pub open spec fn spec_update_width(m: ColumnModel, key: Seq<char>, width: u16) -> ColumnModel {
    match m {
        ColumnModel::V1 { local, remote, status } => {
            if key == "local"@ {
                ColumnModel::V1 { local: width, remote, status }
            } else if key == "remote"@ {
                ColumnModel::V1 { local, remote: width, status }
            } else if key == "status"@ {
                ColumnModel::V1 { local, remote, status: width }
            } else {
                m
            }
        },
        ColumnModel::V2 { columns } => match find_key(columns, key) {
            Some(i) => ColumnModel::V2 {
                columns: columns.update(
                    i,
                    ColumnSpecModel { key: columns[i].key, width: Some(width), hidden: columns[i].hidden },
                ),
            },
            None => m,
        },
    }
}

impl ColumnConfig {
    /// Looks up a width in a stored column sequence: the width of the
    /// first column with the given key, if any.
    fn lookup_width(columns: &Vec<ColumnConfigV2>, key: &str) -> (r: Option<u16>)
        ensures
            r == (match find_key(cols_model(columns@), key@) {
                Some(i) => cols_model(columns@)[i].width,
                None => None::<u16>,
            }),
    {
        let ghost cols = cols_model(columns@);
        let n = columns.len();
        let mut i: usize = 0;
        while i < n
            invariant
                i <= n,
                n == columns@.len(),
                cols == cols_model(columns@),
                forall|j: int| 0 <= j < i ==> cols[j].key != key@,
            decreases n - i,
        {
            if crate::strutil::str_eq(columns[i].key.as_str(), key) {
                proof {
                    lemma_find_key_first(cols, key@, i as int);
                }
                return columns[i].width;
            }
            i += 1;
        }
        proof {
            lemma_find_key_none(cols, key@);
        }
        None
    }

    /// Looks up the position of the first column with the given key in a
    /// stored column sequence, if any.
    fn lookup_order(columns: &Vec<ColumnConfigV2>, key: &str) -> (r: Option<usize>)
        ensures
            match find_key(cols_model(columns@), key@) {
                Some(i) => r matches Some(p) && p as int == i,
                None => r is None,
            },
    {
        let ghost cols = cols_model(columns@);
        let n = columns.len();
        let mut i: usize = 0;
        while i < n
            invariant
                i <= n,
                n == columns@.len(),
                cols == cols_model(columns@),
                forall|j: int| 0 <= j < i ==> cols[j].key != key@,
            decreases n - i,
        {
            if crate::strutil::str_eq(columns[i].key.as_str(), key) {
                proof {
                    lemma_find_key_first(cols, key@, i as int);
                }
                return Some(i);
            }
            i += 1;
        }
        proof {
            lemma_find_key_none(cols, key@);
        }
        None
    }

    /// A copy of a stored column sequence in which the first column with
    /// the given key, if any, carries the new width.
    fn cols_with_width(columns: &Vec<ColumnConfigV2>, key: &str, width: u16) -> (r: Vec<ColumnConfigV2>)
        ensures
            cols_model(r@) == (match find_key(cols_model(columns@), key@) {
                Some(i) => cols_model(columns@).update(
                    i,
                    ColumnSpecModel {
                        key: cols_model(columns@)[i].key,
                        width: Some(width),
                        hidden: cols_model(columns@)[i].hidden,
                    },
                ),
                None => cols_model(columns@),
            }),
    {
        let ghost cols = cols_model(columns@);
        proof {
            lemma_find_key_bounds(cols, key@);
        }
        let ghost tgt = match find_key(cols, key@) {
            Some(i) => cols.update(
                i,
                ColumnSpecModel { key: cols[i].key, width: Some(width), hidden: cols[i].hidden },
            ),
            None => cols,
        };
        let idx = Self::lookup_order(columns, key);
        let n = columns.len();
        let mut out: Vec<ColumnConfigV2> = Vec::new();
        let mut i: usize = 0;
        while i < n
            invariant
                i <= n,
                n == columns@.len(),
                cols == cols_model(columns@),
                tgt == (match find_key(cols, key@) {
                    Some(k) => cols.update(
                        k,
                        ColumnSpecModel {
                            key: cols[k].key,
                            width: Some(width),
                            hidden: cols[k].hidden,
                        },
                    ),
                    None => cols,
                }),
                tgt.len() == n,
                match find_key(cols, key@) {
                    Some(k) => 0 <= k < n && (idx matches Some(p) && p as int == k),
                    None => idx is None,
                },
                out@.len() == i,
                forall|j: int| 0 <= j < i ==> out@[j]@ == tgt[j],
            decreases n - i,
        {
            let c_width = columns[i].width;
            let c_hidden = columns[i].hidden;
            let c_key = columns[i].key.clone();
            let w: Option<u16> = match idx {
                Some(k) => if k == i {
                    Some(width)
                } else {
                    c_width
                },
                None => c_width,
            };
            out.push(ColumnConfigV2 { key: c_key, width: w, hidden: c_hidden });
            i += 1;
        }
        proof {
            assert(cols_model(out@) =~= tgt);
        }
        out
    }

    /// Sets the width stored under `key`; any key the schema does not
    /// know is a no-op.
    pub fn update_width(&mut self, key: &str, width: u16)
        ensures
            final(self)@ == spec_update_width(old(self)@, key@, width),
    {
        let next: ColumnConfig = match &*self {
            ColumnConfig::V1 { local_version_width, remote_version_width, status_width } => {
                if crate::strutil::str_eq(key, "local") {
                    ColumnConfig::V1 {
                        local_version_width: width,
                        remote_version_width: *remote_version_width,
                        status_width: *status_width,
                    }
                } else if crate::strutil::str_eq(key, "remote") {
                    ColumnConfig::V1 {
                        local_version_width: *local_version_width,
                        remote_version_width: width,
                        status_width: *status_width,
                    }
                } else if crate::strutil::str_eq(key, "status") {
                    ColumnConfig::V1 {
                        local_version_width: *local_version_width,
                        remote_version_width: *remote_version_width,
                        status_width: width,
                    }
                } else {
                    ColumnConfig::V1 {
                        local_version_width: *local_version_width,
                        remote_version_width: *remote_version_width,
                        status_width: *status_width,
                    }
                }
            },
            ColumnConfig::V2 { columns } => ColumnConfig::V2 {
                columns: Self::cols_with_width(columns, key, width),
            },
        };
        *self = next;
    }

    /// Looks up the width stored under `key`; an unknown key yields an
    /// absent result in both generations.
    pub fn get_width(&mut self, key: &str) -> (r: Option<u16>)
        ensures
            r == spec_get_width(old(self)@, key@),
            *final(self) == *old(self),
    {
        match &*self {
            ColumnConfig::V1 { local_version_width, remote_version_width, status_width } => {
                if crate::strutil::str_eq(key, "local") {
                    Some(*local_version_width)
                } else if crate::strutil::str_eq(key, "remote") {
                    Some(*remote_version_width)
                } else if crate::strutil::str_eq(key, "status") {
                    Some(*status_width)
                } else {
                    None
                }
            },
            ColumnConfig::V2 { columns } => Self::lookup_width(columns, key),
        }
    }

    /// Looks up the position assigned to `key`; an unknown key yields an
    /// absent result in both generations.
    pub fn get_order(&mut self, key: &str) -> (r: Option<usize>)
        ensures
            match spec_get_order(old(self)@, key@) {
                Some(i) => r matches Some(p) && p as int == i,
                None => r is None,
            },
            *final(self) == *old(self),
    {
        match &*self {
            ColumnConfig::V1 { .. } => {
                if crate::strutil::str_eq(key, "local") {
                    Some(1)
                } else if crate::strutil::str_eq(key, "remote") {
                    Some(2)
                } else if crate::strutil::str_eq(key, "status") {
                    Some(3)
                } else {
                    None
                }
            },
            ColumnConfig::V2 { columns } => Self::lookup_order(columns, key),
        }
    }
}

impl Default for ColumnConfig {
    /// The default schema is generation one with widths 150, 150 and 85.
    fn default() -> (r: ColumnConfig)
        ensures
            r@ == (ColumnModel::V1 { local: 150u16, remote: 150u16, status: 85u16 }),
    {
        ColumnConfig::V1 { local_version_width: 150, remote_version_width: 150, status_width: 85 }
    }
}

} // verus!
