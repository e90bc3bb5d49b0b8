use std::collections::HashMap;
use vstd::prelude::*;

verus! {

broadcast use vstd::std_specs::hash::group_hash_axioms;

/// Header of the column holding the horizontal mirror voltage.
pub const COLUMN_V_U3: &'static str = "V_U3";

/// Header of the column holding the vertical mirror voltage.
pub const COLUMN_V_U4: &'static str = "V_U4";

/// Header of the column holding the horizontal deflection angle.
pub const COLUMN_H_ANGLE: &'static str = "水平偏转角";

/// Header of the column holding the vertical deflection angle.
pub const COLUMN_V_ANGLE: &'static str = "垂直偏转角";

/// What `str::trim` returns for a string (the string without its leading
/// and trailing Unicode white space).
pub uninterp spec fn spec_trim(s: Seq<char>) -> Seq<char>;

/// `str::trim`: the string without leading and trailing white space.  The
/// contract only names the result.
#[verifier::external_body]
fn trim_str(s: &str) -> (r: &str)
    ensures
        r@ == spec_trim(s@),
{
    s.trim()
}

/// Whether a header cell names the column `name` (a text cell whose
/// trimmed text is `name`).
pub open spec fn cell_names(cell: Option<String>, name: Seq<char>) -> bool {
    match cell {
        Some(s) => spec_trim(s@) == name,
        None => false,
    }
}

/// The first position of a header row whose cell names `name`.
pub open spec fn spec_find_column(header: Seq<Option<String>>, name: Seq<char>) -> Option<usize> {
    if exists|i: int| 0 <= i < header.len() && #[trigger] cell_names(header[i], name) {
        let i = choose|i: int|
            0 <= i < header.len() && #[trigger] cell_names(header[i], name) && forall|j: int|
                0 <= j < i ==> !cell_names(#[trigger] header[j], name);
        Some(i as usize)
    } else {
        None
    }
}

/// Positions of the four columns the lookup table is read from.
#[derive(PartialEq, Eq, Structural, Clone, Copy, Debug)]
pub struct ColumnLayout {
    pub v_u3: usize,
    pub v_u4: usize,
    pub h_angle: usize,
    pub v_angle: usize,
}

/// Why a lookup table could not be read.
#[derive(PartialEq, Eq, Debug)]
pub enum TableError {
    /// The sheet has no rows, so no header.
    EmptySheet,
    /// No header cell names this column.
    MissingColumn(String),
}

/// Finds the first cell of a header row whose trimmed text is `name`.
pub fn find_column(header: &Vec<Option<String>>, name: &str) -> (r: Option<usize>)
    ensures
        r == spec_find_column(header@, name@),
        match r {
            Some(i) => i < header@.len() && cell_names(header@[i as int], name@) && forall|j: int|
                0 <= j < i ==> !cell_names(#[trigger] header@[j], name@),
            None => forall|j: int| 0 <= j < header@.len() ==> !cell_names(#[trigger] header@[j], name@),
        },
{
    let mut i: usize = 0;
    while i < header.len()
        invariant
            i <= header@.len(),
            forall|j: int| 0 <= j < i ==> !cell_names(#[trigger] header@[j], name@),
        decreases header@.len() - i,
    {
        let found = match &header[i] {
            Some(s) => {
                let t = trim_str(s.as_str());
                str_equal(t, name)
            },
            None => false,
        };
        if found {
            proof {
                assert(cell_names(header@[i as int], name@));
                let k = choose|k: int|
                    0 <= k < header@.len() && #[trigger] cell_names(header@[k], name@) && forall|j: int|
                        0 <= j < k ==> !cell_names(#[trigger] header@[j], name@);
                if k < i {
                } else if k > i {
                    assert(!cell_names(header@[i as int], name@));
                }
            }
            return Some(i);
        }
        i = i + 1;
    }
    None
}

/// Compares two strings character by character.
fn str_equal(a: &str, b: &str) -> (r: bool)
    ensures
        r == (a@ == b@),
{
    let la: usize = a.unicode_len();
    let lb: usize = b.unicode_len();
    if la != lb {
        return false;
    }
    let mut i: usize = 0;
    while i < la
        invariant
            la == a@.len(),
            lb == b@.len(),
            la == lb,
            i <= la,
            forall|j: int| 0 <= j < i ==> a@[j] == b@[j],
        decreases la - i,
    {
        if a.get_char(i) != b.get_char(i) {
            return false;
        }
        i = i + 1;
    }
    assert(a@ =~= b@);
    true
}

/// Finds the four columns of the lookup table in its header row, in the
/// order V_U3, V_U4, horizontal angle, vertical angle; the first one that
/// is missing is the error.
pub fn locate_columns(header: &Option<Vec<Option<String>>>) -> (r: Result<ColumnLayout, TableError>)
    ensures
        match header {
            None => r == Err::<ColumnLayout, TableError>(TableError::EmptySheet),
            Some(h) => {
                let f3 = spec_find_column(h@, COLUMN_V_U3@);
                let f4 = spec_find_column(h@, COLUMN_V_U4@);
                let fh = spec_find_column(h@, COLUMN_H_ANGLE@);
                let fv = spec_find_column(h@, COLUMN_V_ANGLE@);
                match r {
                    Ok(layout) => f3 == Some(layout.v_u3) && f4 == Some(layout.v_u4) && fh == Some(
                        layout.h_angle,
                    ) && fv == Some(layout.v_angle),
                    Err(TableError::MissingColumn(name)) => if f3 is None {
                        name@ == COLUMN_V_U3@
                    } else if f4 is None {
                        name@ == COLUMN_V_U4@
                    } else if fh is None {
                        name@ == COLUMN_H_ANGLE@
                    } else {
                        fv is None && name@ == COLUMN_V_ANGLE@
                    },
                    Err(TableError::EmptySheet) => false,
                }
            },
        },
{
    match header {
        None => Err(TableError::EmptySheet),
        Some(h) => {
            let v_u3 = match find_column(h, COLUMN_V_U3) {
                Some(i) => i,
                None => return Err(TableError::MissingColumn(String::from_str(COLUMN_V_U3))),
            };
            let v_u4 = match find_column(h, COLUMN_V_U4) {
                Some(i) => i,
                None => return Err(TableError::MissingColumn(String::from_str(COLUMN_V_U4))),
            };
            let h_angle = match find_column(h, COLUMN_H_ANGLE) {
                Some(i) => i,
                None => return Err(TableError::MissingColumn(String::from_str(COLUMN_H_ANGLE))),
            };
            let v_angle = match find_column(h, COLUMN_V_ANGLE) {
                Some(i) => i,
                None => return Err(TableError::MissingColumn(String::from_str(COLUMN_V_ANGLE))),
            };
            Ok(ColumnLayout { v_u3, v_u4, h_angle, v_angle })
        },
    }
}

/// Whether row `i` begins a run of equal keys (it is the first row, or its
/// key differs from the row before).
pub open spec fn is_run_start(keys: Seq<i64>, i: int) -> bool {
    0 <= i < keys.len() && (i == 0 || keys[i] != keys[i - 1])
}

/// Whether `(start, end)` is the last run of key `k` in `keys`: a maximal
/// block of consecutive rows holding `k`, after which `k` does not occur.
pub open spec fn is_last_run_of(keys: Seq<i64>, k: i64, start: int, end: int) -> bool {
    &&& 0 <= start < end <= keys.len()
    &&& is_run_start(keys, start)
    &&& keys[start] == k
    &&& forall|i: int| start <= i < end ==> #[trigger] keys[i] == k
    &&& forall|i: int| end <= i < keys.len() ==> #[trigger] keys[i] != k
}

/// The index of a lookup table whose rows are sorted by their first voltage:
/// for each key (the first voltage in thousandths, rounded) the block of
/// rows that holds it, and the first row of every block.
pub struct GroupIndex {
    groups: HashMap<i64, (usize, usize)>,
    run_starts: Vec<usize>,
    keys: Ghost<Seq<i64>>,
}

impl GroupIndex {
    /// The keys of the rows the index was built from.
    pub closed spec fn keys(&self) -> Seq<i64> {
        self.keys@
    }

    /// The blocks, by key.
    pub closed spec fn groups(&self) -> Map<i64, (usize, usize)> {
        self.groups@
    }

    /// The first row of every block, in order.
    pub closed spec fn run_starts(&self) -> Seq<usize> {
        self.run_starts@
    }

    /// The index is that of its keys: the blocks are the last run of each
    /// key, and the run starts are exactly the rows that begin a run, in
    /// increasing order.
    pub open spec fn wf(&self) -> bool {
        let keys = self.keys();
        &&& forall|i: int| 0 <= i < keys.len() ==> self.groups().contains_key(#[trigger] keys[i])
        &&& forall|k: i64| #[trigger]
            self.groups().contains_key(k) ==> is_last_run_of(
                keys,
                k,
                self.groups()[k].0 as int,
                self.groups()[k].1 as int,
            )
        &&& forall|a: int, b: int|
            0 <= a < b < self.run_starts().len() ==> #[trigger] self.run_starts()[a]
                < #[trigger] self.run_starts()[b]
        &&& forall|a: int|
            0 <= a < self.run_starts().len() ==> is_run_start(keys, #[trigger] self.run_starts()[a] as int)
        &&& forall|i: int| #[trigger]
            is_run_start(keys, i) ==> self.run_starts().contains(i as usize)
    }

    /// Builds the index of a table from the keys of its rows, in row order.
    /// Equal keys are expected in consecutive rows; where a key comes back
    /// later, its last block is the one kept.
    pub fn build(keys: &[i64]) -> (r: GroupIndex)
        ensures
            r.wf(),
            r.keys() == keys@,
    {
        let mut groups: HashMap<i64, (usize, usize)> = HashMap::new();
        let mut run_starts: Vec<usize> = Vec::new();
        let n: usize = keys.len();
        if n == 0 {
            let r = GroupIndex { groups, run_starts, keys: Ghost(keys@) };
            assert(r.groups() =~= Map::empty());
            return r;
        }
        let mut start: usize = 0;
        run_starts.push(0);
        proof {
            assert(groups@ =~= Map::empty());
            assert(run_starts@[0] == 0);
        }
        let mut i: usize = 1;
        while i < n
            invariant
                n == keys@.len(),
                0 <= start < i <= n,
                is_run_start(keys@, start as int),
                forall|j: int| start <= j < i ==> #[trigger] keys@[j] == keys@[start as int],
                groups_ok(keys@, groups@, start as int),
                starts_ok(keys@, run_starts@, i as int),
                run_starts@.len() > 0,
                run_starts@.last() == start,
            decreases n - i,
        {
            if keys[i] != keys[start] {
                proof {
                    lemma_close_run(keys@, groups@, start as int, i as int);
                    lemma_starts_push(keys@, run_starts@, i as int);
                }
                groups.insert(keys[start], (start, i));
                start = i;
                run_starts.push(i);
            } else {
                proof {
                    lemma_starts_skip(keys@, run_starts@, i as int);
                }
            }
            i = i + 1;
        }
        proof {
            lemma_close_run(keys@, groups@, start as int, n as int);
        }
        groups.insert(keys[start], (start, n));
        let r = GroupIndex { groups, run_starts, keys: Ghost(keys@) };
        proof {
            assert forall|k: i64| #[trigger] r.groups().contains_key(k) implies is_last_run_of(
                keys@,
                k,
                r.groups()[k].0 as int,
                r.groups()[k].1 as int,
            ) by {
                assert(groups_ok(keys@, r.groups(), n as int));
            }
        }
        r
    }

    /// The block of rows of a key, if some row holds it.
    pub fn get(&self, key: i64) -> (r: Option<(usize, usize)>)
        requires
            self.wf(),
        ensures
            match r {
                Some(range) => self.groups().contains_key(key) && range == self.groups()[key]
                    && is_last_run_of(self.keys(), key, range.0 as int, range.1 as int),
                None => !self.groups().contains_key(key) && forall|i: int|
                    0 <= i < self.keys().len() ==> #[trigger] self.keys()[i] != key,
            },
    {
        match self.groups.get(&key) {
            Some(range) => Some(*range),
            None => None,
        }
    }

    /// The first row of every block, in order.
    pub fn run_start_rows(&self) -> (r: &Vec<usize>)
        ensures
            r@ == self.run_starts(),
    {
        &self.run_starts
    }
}

/// Whether the keys never decrease from one row to the next.
pub open spec fn keys_sorted(keys: Seq<i64>) -> bool {
    forall|i: int, j: int| 0 <= i <= j < keys.len() ==> keys[i] <= keys[j]
}

/// For a table sorted by its keys, the block of a key holds every row of
/// that key and no other: a lookup finds all the rows of a voltage.
pub proof fn lemma_sorted_block_is_all_rows(index: GroupIndex, i: int)
    requires
        index.wf(),
        keys_sorted(index.keys()),
        0 <= i < index.keys().len(),
    ensures
        index.groups().contains_key(index.keys()[i]),
        ({
            let range = index.groups()[index.keys()[i]];
            &&& range.0 as int <= i < range.1 as int
            &&& forall|j: int|
                0 <= j < index.keys().len() ==> (#[trigger] index.keys()[j] == index.keys()[i]
                    <==> range.0 as int <= j < range.1 as int)
        }),
{
    let keys = index.keys();
    let k = keys[i];
    assert(index.groups().contains_key(k));
    let s = index.groups()[k].0 as int;
    let e = index.groups()[k].1 as int;
    assert(is_last_run_of(keys, k, s, e));
    assert forall|j: int| 0 <= j < keys.len() implies (#[trigger] keys[j] == k <==> s <= j < e) by {
        if j < s {
            assert(keys[s - 1] != keys[s]);
            assert(keys[j] <= keys[s - 1]);
            assert(keys[s - 1] <= keys[s]);
        }
    }
}

/// The blocks of the rows before `upto`: every key there has one, and each
/// is the last run of its key so far.
spec fn groups_ok(keys: Seq<i64>, g: Map<i64, (usize, usize)>, upto: int) -> bool {
    &&& forall|j: int| 0 <= j < upto ==> g.contains_key(#[trigger] keys[j])
    &&& forall|k: i64| #[trigger]
        g.contains_key(k) ==> {
            let s = g[k].0 as int;
            let e = g[k].1 as int;
            &&& 0 <= s < e <= upto
            &&& is_run_start(keys, s)
            &&& keys[s] == k
            &&& forall|j: int| s <= j < e ==> #[trigger] keys[j] == k
            &&& forall|j: int| e <= j < upto ==> #[trigger] keys[j] != k
            &&& e < keys.len() ==> keys[e] != k
        }
}

/// The run starts found among the rows before `upto`, in increasing order.
spec fn starts_ok(keys: Seq<i64>, st: Seq<usize>, upto: int) -> bool {
    &&& forall|a: int, b: int| 0 <= a < b < st.len() ==> #[trigger] st[a] < #[trigger] st[b]
    &&& forall|a: int| 0 <= a < st.len() ==> is_run_start(keys, #[trigger] st[a] as int)
    &&& forall|a: int| 0 <= a < st.len() ==> #[trigger] st[a] < upto
    &&& forall|j: int| #[trigger] is_run_start(keys, j) && j < upto ==> st.contains(j as usize)
}

proof fn lemma_close_run(keys: Seq<i64>, g: Map<i64, (usize, usize)>, start: int, end: int)
    requires
        0 <= start < end <= keys.len(),
        end <= usize::MAX,
        is_run_start(keys, start),
        forall|j: int| start <= j < end ==> #[trigger] keys[j] == keys[start],
        end < keys.len() ==> keys[end] != keys[start],
        groups_ok(keys, g, start),
    ensures
        groups_ok(keys, g.insert(keys[start], (start as usize, end as usize)), end),
{
    let k0 = keys[start];
    let g2 = g.insert(k0, (start as usize, end as usize));
    assert forall|j: int| 0 <= j < end implies g2.contains_key(#[trigger] keys[j]) by {
        if j < start {
            assert(g.contains_key(keys[j]));
        }
    }
    assert forall|k: i64| #[trigger] g2.contains_key(k) implies {
        let s = g2[k].0 as int;
        let e = g2[k].1 as int;
        &&& 0 <= s < e <= end
        &&& is_run_start(keys, s)
        &&& keys[s] == k
        &&& forall|j: int| s <= j < e ==> #[trigger] keys[j] == k
        &&& forall|j: int| e <= j < end ==> #[trigger] keys[j] != k
        &&& e < keys.len() ==> keys[e] != k
    } by {
        if k != k0 {
            assert(g.contains_key(k));
            assert forall|j: int| (g[k].1 as int) <= j < end implies #[trigger] keys[j] != k by {
                if j >= start {
                    assert(keys[j] == k0);
                }
            }
        }
    }
}

proof fn lemma_starts_push(keys: Seq<i64>, st: Seq<usize>, i: int)
    requires
        0 < i < keys.len(),
        i <= usize::MAX,
        keys[i] != keys[i - 1],
        starts_ok(keys, st, i),
    ensures
        starts_ok(keys, st.push(i as usize), i + 1),
{
    let st2 = st.push(i as usize);
    assert forall|j: int| #[trigger] is_run_start(keys, j) && j < i + 1 implies st2.contains(j as usize) by {
        if j < i {
            let idx = choose|idx: int| 0 <= idx < st.len() && st[idx] == j as usize;
            assert(st2[idx] == j as usize);
        } else {
            assert(st2[st2.len() - 1] == j as usize);
        }
    }
}

proof fn lemma_starts_skip(keys: Seq<i64>, st: Seq<usize>, i: int)
    requires
        0 < i < keys.len(),
        keys[i] == keys[i - 1],
        starts_ok(keys, st, i),
    ensures
        starts_ok(keys, st, i + 1),
{
    assert forall|j: int| #[trigger] is_run_start(keys, j) && j < i + 1 implies st.contains(j as usize) by {
        assert(j != i);
    }
}

} // verus!
