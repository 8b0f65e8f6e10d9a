//! The chart of accounts: levels and natures, the shape of a coding scheme,
//! the account tree with each branch's rolled-up balance, the next free code
//! and the checks on saving or deactivating an account.
use vstd::prelude::*;
use crate::text::{
    all_digits, chars_of, digits_text, is_blank, parse_i64, parse_i64_spec, same_text, trim,
    trim_seq, zero_padded, zero_padded_text, int_text, decimal_text, zeros,
};

verus! {

broadcast use vstd::string::group_string_axioms;

/// The nature of an account: which side its balance normally stands on.
#[derive(Debug, Clone, Copy, PartialEq, Eq, Structural)]
pub enum AccountNature {
    Debit,
    Credit,
    Mixed,
}

/// Why an account could not be saved or deactivated, or a code suggested.
#[derive(Debug, Clone, Copy, PartialEq, Eq, Structural)]
pub enum CodingError {
    /// COA-001
    BadNature,
    /// COA-005
    NoFreeChildCode,
    /// COA-006
    RootLevelFull,
    /// COA-007
    MissingName,
    /// COA-008
    CodeNotDigits,
    /// COA-009
    TooDeep,
    /// COA-014
    DuplicateCode,
    /// COA-015
    CodeHasMovements,
    /// COA-016
    NatureHasMovements,
    /// COA-019
    HasActiveChildren,
    /// COA-020
    LinkedToTreasury,
}

/// The level of an account as the database stores it: `group`, `general`,
/// `subsidiary`, and anything else counts as `detail`.
pub open spec fn level_of_name(level: Seq<char>) -> usize {
    if level == "group"@ {
        0
    } else if level == "general"@ {
        1
    } else if level == "subsidiary"@ {
        2
    } else {
        3
    }
}

/// The level of an account from its database column, the source of truth
/// of the hierarchy.
pub fn level_from_db(level: &str) -> (r: usize)
    ensures
        r == level_of_name(level@),
{
    if same_text(level, "group") {
        0
    } else if same_text(level, "general") {
        1
    } else if same_text(level, "subsidiary") {
        2
    } else {
        3
    }
}

/// The database name of a level.
pub fn db_level_name(level: usize) -> (r: &'static str)
    ensures
        level == 0 ==> r@ == "group"@,
        level == 1 ==> r@ == "general"@,
        level == 2 ==> r@ == "subsidiary"@,
        level >= 3 ==> r@ == "detail"@,
{
    if level == 0 {
        "group"
    } else if level == 1 {
        "general"
    } else if level == 2 {
        "subsidiary"
    } else {
        "detail"
    }
}

/// The label shown for a nature.
pub fn nature_label(nature: &str) -> (r: &'static str)
    ensures
        r@ == nature_label_of(nature@),
{
    if same_text(nature, "debit") {
        "بدهکار"
    } else if same_text(nature, "credit") {
        "بستانکار"
    } else if same_text(nature, "mixed") {
        "مختلط"
    } else {
        "نامشخص"
    }
}

/// The nature a text names: `debit`, `credit` or `mixed`.
pub open spec fn nature_of(value: Seq<char>) -> Result<AccountNature, CodingError> {
    if value == "debit"@ {
        Ok(AccountNature::Debit)
    } else if value == "credit"@ {
        Ok(AccountNature::Credit)
    } else if value == "mixed"@ {
        Ok(AccountNature::Mixed)
    } else {
        Err(CodingError::BadNature)
    }
}

/// The label shown for a nature.
pub open spec fn nature_label_of(nature: Seq<char>) -> Seq<char> {
    if nature == "debit"@ {
        "بدهکار"@
    } else if nature == "credit"@ {
        "بستانکار"@
    } else if nature == "mixed"@ {
        "مختلط"@
    } else {
        "نامشخص"@
    }
}

/// Reads a nature: `debit`, `credit` or `mixed`.
pub fn parse_nature(value: &str) -> (r: Result<AccountNature, CodingError>)
    ensures
        r == nature_of(value@),
{
    if same_text(value, "debit") {
        Ok(AccountNature::Debit)
    } else if same_text(value, "credit") {
        Ok(AccountNature::Credit)
    } else if same_text(value, "mixed") {
        Ok(AccountNature::Mixed)
    } else {
        Err(CodingError::BadNature)
    }
}

/// The coding scheme as the settings page shows it.
#[derive(Debug)]
pub struct CodingSchemeInfo {
    pub level_widths: Vec<u8>,
    pub level_titles: Vec<String>,
    /// The length of a code at each level.
    pub code_lengths: Vec<usize>,
    /// The largest number of children at each level.
    pub capacities: Vec<u32>,
}

/// `10` to the power `n`.
pub open spec fn pow10(n: nat) -> nat
    decreases n,
{
    if n == 0 {
        1
    } else {
        10 * pow10((n - 1) as nat)
    }
}

/// The width of level `i` of a scheme whose codes have these lengths.
pub open spec fn level_width(lengths: Seq<usize>, i: int) -> int {
    if i == 0 {
        lengths[0] as int
    } else {
        lengths[i] - lengths[i - 1]
    }
}

/// Code lengths that grow at every level by one to nine digits.
pub open spec fn lengths_ok(lengths: Seq<usize>) -> bool {
    forall|i: int| 0 <= i < lengths.len() ==> 1 <= #[trigger] level_width(lengths, i) <= 9
}

/// A title, or the generic one where the scheme has none.
pub open spec fn title_or_default(t: Option<String>) -> Seq<char> {
    match t {
        Some(s) => s@,
        None => "سطح"@,
    }
}

fn pow10_u32(n: usize) -> (r: u32)
    requires
        n <= 9,
    ensures
        r == pow10(n as nat),
{
    let mut r: u32 = 1;
    let mut i: usize = 0;
    while i < n
        invariant
            0 <= i <= n <= 9,
            r == pow10(i as nat),
            r <= 1_000_000_000,
        decreases n - i,
    {
        proof {
            assert(pow10((i + 1) as nat) == 10 * pow10(i as nat));
            lemma_pow10_mono((i + 1) as nat, 9);
            assert(pow10(9) == 1_000_000_000) by {
                reveal_with_fuel(pow10, 10);
            }
        }
        r = r * 10;
        i = i + 1;
    }
    r
}

proof fn lemma_pow10_mono(n: nat, m: nat)
    requires
        n <= m,
    ensures
        1 <= pow10(n) <= pow10(m),
    decreases m,
{
    if n < m {
        lemma_pow10_mono(n, (m - 1) as nat);
    } else if n > 0 {
        lemma_pow10_mono((n - 1) as nat, (n - 1) as nat);
    }
}

/// The scheme as shown: the width of each level, its title (a generic one
/// where the scheme gives none), the code length at each level, and the
/// number of children each level can hold, `10^width - 1`. `code_lengths`
/// and `titles` are what the scheme gives for each of its levels.
pub fn describe(code_lengths: Vec<usize>, titles: Vec<Option<String>>) -> (r: CodingSchemeInfo)
    requires
        titles@.len() == code_lengths@.len(),
        lengths_ok(code_lengths@),
    ensures
        r.code_lengths@ == code_lengths@,
        r.level_widths@.len() == code_lengths@.len(),
        r.level_titles@.len() == code_lengths@.len(),
        r.capacities@.len() == code_lengths@.len(),
        forall|i: int| 0 <= i < code_lengths@.len() ==> #[trigger] r.level_widths@[i] == level_width(code_lengths@, i),
        forall|i: int| 0 <= i < code_lengths@.len() ==> #[trigger] r.capacities@[i] == pow10(level_width(code_lengths@, i) as nat) - 1,
        forall|i: int| 0 <= i < code_lengths@.len() ==> #[trigger] r.level_titles@[i]@ == title_or_default(titles@[i]),
{
    let mut widths: Vec<u8> = Vec::new();
    let mut capacities: Vec<u32> = Vec::new();
    let mut level_titles: Vec<String> = Vec::new();
    let mut previous: usize = 0;
    let mut i: usize = 0;
    while i < code_lengths.len()
        invariant
            0 <= i <= code_lengths@.len(),
            titles@.len() == code_lengths@.len(),
            lengths_ok(code_lengths@),
            i == 0 ==> previous == 0,
            i > 0 ==> previous == code_lengths@[i - 1],
            widths@.len() == i,
            capacities@.len() == i,
            level_titles@.len() == i,
            forall|j: int| 0 <= j < i ==> #[trigger] widths@[j] == level_width(code_lengths@, j),
            forall|j: int| 0 <= j < i ==> #[trigger] capacities@[j] == pow10(level_width(code_lengths@, j) as nat) - 1,
            forall|j: int| 0 <= j < i ==> #[trigger] level_titles@[j]@ == title_or_default(titles@[j]),
        decreases code_lengths@.len() - i,
    {
        proof {
            assert(1 <= level_width(code_lengths@, i as int) <= 9);
        }
        let width = code_lengths[i] - previous;
        widths.push(width as u8);
        let p = pow10_u32(width);
        proof {
            lemma_pow10_mono(width as nat, width as nat);
        }
        capacities.push(p - 1);
        let title = match &titles[i] {
            Some(t) => t.clone(),
            None => String::from_str("سطح"),
        };
        level_titles.push(title);
        previous = code_lengths[i];
        i = i + 1;
    }
    CodingSchemeInfo { level_widths: widths, level_titles, code_lengths, capacities }
}


/// An account as the tree is read from storage: its own movements are the
/// sums of its journal lines.
#[derive(Debug)]
pub struct AccountRaw {
    pub id: String,
    pub code: String,
    pub name: String,
    pub parent_id: Option<String>,
    pub nature: String,
    pub is_active: i64,
    pub requires_subsidiary: i64,
    pub subsidiary_group_id: Option<String>,
    pub debit: i64,
    pub credit: i64,
    pub level: String,
}

/// A node of the chart of accounts with its movements and balance.
#[derive(Debug)]
pub struct AccountNodeRow {
    pub id: String,
    pub code: String,
    pub name: String,
    pub level: usize,
    pub level_title: String,
    pub parent_id: Option<String>,
    pub nature: String,
    pub nature_label: String,
    pub is_active: bool,
    /// Whether an entry may be posted directly to this account.
    pub is_postable: bool,
    pub child_count: i64,
    /// The account's own debits and credits, without its children.
    pub debit: i64,
    pub credit: i64,
    /// The balance of the whole branch, the account and all its
    /// descendants, as the trial balance shows it.
    pub rollup_balance: i128,
    pub requires_subsidiary: bool,
    pub subsidiary_group_id: Option<String>,
}

/// The first index at or after `k` of a row with this id.
pub open spec fn id_index_from(rows: Seq<AccountRaw>, id: Seq<char>, k: int) -> Option<int>
    decreases rows.len() - k,
{
    if k < 0 || k >= rows.len() {
        None
    } else if rows[k].id@ == id {
        Some(k)
    } else {
        id_index_from(rows, id, k + 1)
    }
}

/// The row of an account's parent, if it is among the rows.
pub open spec fn parent_index(rows: Seq<AccountRaw>, j: int) -> Option<int> {
    match rows[j].parent_id {
        Some(p) => id_index_from(rows, p@, 0),
        None => None,
    }
}

/// Row `j` lies in the branch of the account `root`: walking up from it by
/// parents, at most `fuel` steps, reaches that account.
pub open spec fn in_branch(rows: Seq<AccountRaw>, j: int, root: Seq<char>, fuel: nat) -> bool
    decreases fuel,
{
    if rows[j].id@ == root {
        true
    } else if fuel == 0 {
        false
    } else {
        match parent_index(rows, j) {
            Some(k) => in_branch(rows, k, root, (fuel - 1) as nat),
            None => false,
        }
    }
}

/// The balance of the branch of `root` among the first `n` rows: the
/// debits less the credits of every row in it. A walk up a tree of
/// `rows.len()` accounts takes fewer than that many steps.
pub open spec fn branch_balance(rows: Seq<AccountRaw>, root: Seq<char>, n: int) -> int
    decreases n,
{
    if n <= 0 {
        0
    } else {
        branch_balance(rows, root, n - 1) + if in_branch(rows, n - 1, root, rows.len()) {
            rows[n - 1].debit - rows[n - 1].credit
        } else {
            0
        }
    }
}

/// The number of rows among the first `n` whose parent is `id`.
pub open spec fn children_count(rows: Seq<AccountRaw>, id: Seq<char>, n: int) -> int
    decreases n,
{
    if n <= 0 {
        0
    } else {
        children_count(rows, id, n - 1) + if rows[n - 1].parent_id matches Some(p) && p@ == id {
            1int
        } else {
            0
        }
    }
}

/// The title of a level, from what the scheme gives for each level.
pub open spec fn level_title_of(titles: Seq<Option<String>>, level: int) -> Seq<char> {
    if 0 <= level < titles.len() {
        title_or_default(titles[level])
    } else {
        "سطح"@
    }
}

/// The node of the tree built from row `i`.
pub open spec fn node_of(rows: Seq<AccountRaw>, titles: Seq<Option<String>>, i: int, r: AccountNodeRow) -> bool {
    let a = rows[i];
    &&& r.id == a.id
    &&& r.code == a.code
    &&& r.name == a.name
    &&& r.level == level_of_name(a.level@)
    &&& r.level_title@ == level_title_of(titles, level_of_name(a.level@) as int)
    &&& r.parent_id == a.parent_id
    &&& r.nature == a.nature
    &&& r.nature_label@ == nature_label_of(a.nature@)
    &&& r.is_active == (a.is_active == 1)
    &&& r.child_count == children_count(rows, a.id@, rows.len() as int)
    &&& r.is_postable == (r.child_count == 0)
    &&& r.debit == a.debit
    &&& r.credit == a.credit
    &&& r.rollup_balance == branch_balance(rows, a.id@, rows.len() as int)
    &&& r.requires_subsidiary == (a.requires_subsidiary == 1)
    &&& r.subsidiary_group_id == a.subsidiary_group_id
}

fn find_id(rows: &Vec<AccountRaw>, id: &str) -> (r: Option<usize>)
    ensures
        match id_index_from(rows@, id@, 0) {
            Some(k) => r == Some(k as usize),
            None => r is None,
        },
{
    let mut k: usize = 0;
    while k < rows.len()
        invariant
            0 <= k <= rows@.len(),
            id_index_from(rows@, id@, 0) == id_index_from(rows@, id@, k as int),
        decreases rows@.len() - k,
    {
        if same_text(rows[k].id.as_str(), id) {
            return Some(k);
        }
        k = k + 1;
    }
    None
}

fn parent_indices(rows: &Vec<AccountRaw>) -> (r: Vec<Option<usize>>)
    ensures
        r@.len() == rows@.len(),
        forall|j: int| 0 <= j < rows@.len() ==> match #[trigger] parent_index(rows@, j) {
            Some(k) => r@[j] == Some(k as usize),
            None => r@[j] is None,
        },
{
    let mut out: Vec<Option<usize>> = Vec::new();
    let mut j: usize = 0;
    while j < rows.len()
        invariant
            0 <= j <= rows@.len(),
            out@.len() == j,
            forall|i: int| 0 <= i < j ==> match #[trigger] parent_index(rows@, i) {
                Some(k) => out@[i] == Some(k as usize),
                None => out@[i] is None,
            },
        decreases rows@.len() - j,
    {
        let p = match &rows[j].parent_id {
            Some(pid) => find_id(rows, pid.as_str()),
            None => None,
        };
        out.push(p);
        j = j + 1;
    }
    out
}

fn in_branch_exec(rows: &Vec<AccountRaw>, parents: &Vec<Option<usize>>, j: usize, root: &str) -> (r: bool)
    requires
        j < rows@.len(),
        parents@.len() == rows@.len(),
        forall|i: int| 0 <= i < rows@.len() ==> match #[trigger] parent_index(rows@, i) {
            Some(k) => parents@[i] == Some(k as usize),
            None => parents@[i] is None,
        },
    ensures
        r == in_branch(rows@, j as int, root@, rows@.len() as nat),
{
    let n = rows.len();
    let mut cur: usize = j;
    let mut fuel: usize = n;
    while fuel > 0
        invariant
            cur < rows@.len(),
            n == rows@.len(),
            fuel <= n,
            parents@.len() == rows@.len(),
            forall|i: int| 0 <= i < rows@.len() ==> match #[trigger] parent_index(rows@, i) {
                Some(k) => parents@[i] == Some(k as usize),
                None => parents@[i] is None,
            },
            in_branch(rows@, j as int, root@, n as nat) == in_branch(rows@, cur as int, root@, fuel as nat),
        decreases fuel,
    {
        if same_text(rows[cur].id.as_str(), root) {
            return true;
        }
        proof {
            if let Some(k) = parent_index(rows@, cur as int) {
                assert(0 <= k < rows@.len()) by {
                    lemma_id_index_range(rows@, rows@[cur as int].parent_id->0@, 0);
                }
            }
        }
        match parents[cur] {
            Some(k) => {
                cur = k;
                fuel = fuel - 1;
            },
            None => {
                return false;
            },
        }
    }
    same_text(rows[cur].id.as_str(), root)
}

proof fn lemma_id_index_range(rows: Seq<AccountRaw>, id: Seq<char>, k: int)
    ensures
        id_index_from(rows, id, k) matches Some(i) ==> k <= i < rows.len() && rows[i].id@ == id,
    decreases rows.len() - k,
{
    if 0 <= k < rows.len() && rows[k].id@ != id {
        lemma_id_index_range(rows, id, k + 1);
    }
}

/// Walking up from a row of `root`'s branch that is not `root` itself passes
/// through a child of `root`.
proof fn lemma_branch_has_child(rows: Seq<AccountRaw>, j: int, root: Seq<char>, fuel: nat) -> (c: int)
    requires
        0 <= j < rows.len(),
        in_branch(rows, j, root, fuel),
        rows[j].id@ != root,
    ensures
        0 <= c < rows.len(),
        rows[c].parent_id matches Some(p) && p@ == root,
    decreases fuel,
{
    let p = rows[j].parent_id->0;
    let k = parent_index(rows, j)->0;
    lemma_id_index_range(rows, p@, 0);
    if rows[k].id@ == root {
        j
    } else {
        lemma_branch_has_child(rows, k, root, (fuel - 1) as nat)
    }
}

proof fn lemma_children_counted(rows: Seq<AccountRaw>, id: Seq<char>, n: int, c: int)
    requires
        0 <= c < n <= rows.len(),
        rows[c].parent_id matches Some(p) && p@ == id,
    ensures
        children_count(rows, id, n) >= 1,
    decreases n,
{
    if c < n - 1 {
        lemma_children_counted(rows, id, n - 1, c);
    } else {
        lemma_children_nonnegative(rows, id, n - 1);
    }
}

proof fn lemma_children_nonnegative(rows: Seq<AccountRaw>, id: Seq<char>, n: int)
    ensures
        children_count(rows, id, n) >= 0,
    decreases n,
{
    if n > 0 {
        lemma_children_nonnegative(rows, id, n - 1);
    }
}

proof fn lemma_lone_branch(rows: Seq<AccountRaw>, i: int, n: int)
    requires
        0 <= i < rows.len(),
        0 <= n <= rows.len(),
        forall|j: int| 0 <= j < rows.len() && j != i ==> #[trigger] rows[j].id@ != rows[i].id@,
        forall|j: int|
            0 <= j < rows.len() && #[trigger] in_branch(rows, j, rows[i].id@, rows.len() as nat) ==> j == i,
    ensures
        branch_balance(rows, rows[i].id@, n) == (if i < n {
            rows[i].debit - rows[i].credit
        } else {
            0
        }),
    decreases n,
{
    if n > 0 {
        lemma_lone_branch(rows, i, n - 1);
        if n - 1 == i {
            assert(in_branch(rows, i, rows[i].id@, rows.len() as nat));
        }
    }
}

/// An account with no child rolls up exactly its own movements: nothing
/// else lies in its branch. Ids are unique, as in the chart.
pub proof fn lemma_leaf_rollup(rows: Seq<AccountRaw>, i: int)
    requires
        0 <= i < rows.len(),
        forall|a: int, b: int| 0 <= a < b < rows.len() ==> #[trigger] rows[a].id@ != #[trigger] rows[b].id@,
        children_count(rows, rows[i].id@, rows.len() as int) == 0,
    ensures
        branch_balance(rows, rows[i].id@, rows.len() as int) == rows[i].debit - rows[i].credit,
{
    let root = rows[i].id@;
    assert forall|j: int| 0 <= j < rows.len() && j != i implies #[trigger] rows[j].id@ != rows[i].id@ by {
        if j < i {
            assert(rows[j].id@ != rows[i].id@);
        } else {
            assert(rows[i].id@ != rows[j].id@);
        }
    }
    assert forall|j: int|
        0 <= j < rows.len() && #[trigger] in_branch(rows, j, root, rows.len() as nat) implies j == i by {
        if rows[j].id@ != root {
            let c = lemma_branch_has_child(rows, j, root, rows.len() as nat);
            lemma_children_counted(rows, root, rows.len() as int, c);
        }
    }
    lemma_lone_branch(rows, i, rows.len() as int);
}

fn clone_opt(o: &Option<String>) -> (r: Option<String>)
    ensures
        r == *o,
{
    match o {
        Some(s) => Some(s.clone()),
        None => None,
    }
}

fn branch_balance_exec(rows: &Vec<AccountRaw>, parents: &Vec<Option<usize>>, root: &str) -> (r: i128)
    requires
        rows@.len() <= 0x1000_0000_0000_0000,
        parents@.len() == rows@.len(),
        forall|i: int| 0 <= i < rows@.len() ==> match #[trigger] parent_index(rows@, i) {
            Some(k) => parents@[i] == Some(k as usize),
            None => parents@[i] is None,
        },
    ensures
        r == branch_balance(rows@, root@, rows@.len() as int),
{
    let mut acc: i128 = 0;
    let mut j: usize = 0;
    let bound: i128 = 0x1_0000_0000_0000_0000;
    while j < rows.len()
        invariant
            0 <= j <= rows@.len(),
            rows@.len() <= 0x1000_0000_0000_0000,
            parents@.len() == rows@.len(),
            forall|i: int| 0 <= i < rows@.len() ==> match #[trigger] parent_index(rows@, i) {
                Some(k) => parents@[i] == Some(k as usize),
                None => parents@[i] is None,
            },
            acc == branch_balance(rows@, root@, j as int),
            -(j * bound) <= acc <= j * bound,
            bound == 0x1_0000_0000_0000_0000,
        decreases rows@.len() - j,
    {
        if in_branch_exec(rows, parents, j, root) {
            acc = acc + rows[j].debit as i128 - rows[j].credit as i128;
        }
        j = j + 1;
    }
    acc
}

fn children_count_exec(rows: &Vec<AccountRaw>, id: &str) -> (r: i64)
    requires
        rows@.len() <= 0x1000_0000_0000_0000,
    ensures
        r == children_count(rows@, id@, rows@.len() as int),
{
    let mut count: i64 = 0;
    let mut j: usize = 0;
    while j < rows.len()
        invariant
            0 <= j <= rows@.len(),
            rows@.len() <= 0x1000_0000_0000_0000,
            count == children_count(rows@, id@, j as int),
            0 <= count <= j,
        decreases rows@.len() - j,
    {
        let is_child = match &rows[j].parent_id {
            Some(p) => same_text(p.as_str(), id),
            None => false,
        };
        if is_child {
            count = count + 1;
        }
        j = j + 1;
    }
    count
}

/// The chart of accounts as a tree: each account with its level and title,
/// its number of children (an account is postable when it has none), its own
/// movements, and the balance of its whole branch. The hierarchy comes from
/// the parent links, not from the code, so a flat coding works as well.
/// `level_titles` are what the scheme gives for each level; ids are unique.
pub fn account_tree(rows: &Vec<AccountRaw>, level_titles: &Vec<Option<String>>) -> (r: Vec<AccountNodeRow>)
    requires
        rows@.len() <= 0x1000_0000_0000_0000,
    ensures
        r@.len() == rows@.len(),
        forall|i: int| 0 <= i < rows@.len() ==> node_of(rows@, level_titles@, i, #[trigger] r@[i]),
{
    let parents = parent_indices(rows);
    let mut out: Vec<AccountNodeRow> = Vec::new();
    let mut i: usize = 0;
    while i < rows.len()
        invariant
            0 <= i <= rows@.len(),
            rows@.len() <= 0x1000_0000_0000_0000,
            parents@.len() == rows@.len(),
            forall|j: int| 0 <= j < rows@.len() ==> match #[trigger] parent_index(rows@, j) {
                Some(k) => parents@[j] == Some(k as usize),
                None => parents@[j] is None,
            },
            out@.len() == i,
            forall|j: int| 0 <= j < i ==> node_of(rows@, level_titles@, j, #[trigger] out@[j]),
        decreases rows@.len() - i,
    {
        let a = &rows[i];
        let level = level_from_db(a.level.as_str());
        let level_title = if level < level_titles.len() {
            match &level_titles[level] {
                Some(t) => t.clone(),
                None => String::from_str("سطح"),
            }
        } else {
            String::from_str("سطح")
        };
        let child_count = children_count_exec(rows, a.id.as_str());
        let rollup = branch_balance_exec(rows, &parents, a.id.as_str());
        let node = AccountNodeRow {
            id: a.id.clone(),
            code: a.code.clone(),
            name: a.name.clone(),
            level,
            level_title,
            parent_id: clone_opt(&a.parent_id),
            nature_label: String::from_str(nature_label(a.nature.as_str())),
            nature: a.nature.clone(),
            is_active: a.is_active == 1,
            is_postable: child_count == 0,
            child_count,
            debit: a.debit,
            credit: a.credit,
            rollup_balance: rollup,
            requires_subsidiary: a.requires_subsidiary == 1,
            subsidiary_group_id: clone_opt(&a.subsidiary_group_id),
        };
        out.push(node);
        i = i + 1;
    }
    out
}


/// Some account already has this code.
pub open spec fn code_taken(codes: Seq<String>, c: Seq<char>) -> bool {
    exists|i: int| 0 <= i < codes.len() && #[trigger] codes[i]@ == c
}

/// The first serial from `from` below 1000 whose root code at `width` is free.
pub open spec fn first_free_root(codes: Seq<String>, width: nat, from: int) -> Option<int>
    decreases 1000 - from,
{
    if from >= 1000 {
        None
    } else if !code_taken(codes, root_candidate(from, width)) {
        Some(from)
    } else {
        first_free_root(codes, width, from + 1)
    }
}

/// The first step from `from` below 1000 whose code `base + step`, padded
/// to `width`, is free.
pub open spec fn first_free_step(codes: Seq<String>, base: int, width: nat, from: int) -> Option<int>
    decreases 1000 - from,
{
    if from >= 1000 {
        None
    } else if !code_taken(codes, zero_padded(base + from, width)) {
        Some(from)
    } else {
        first_free_step(codes, base, width, from + 1)
    }
}

fn contains_code(codes: &Vec<String>, c: &str) -> (r: bool)
    ensures
        r == code_taken(codes@, c@),
{
    let mut i: usize = 0;
    while i < codes.len()
        invariant
            0 <= i <= codes@.len(),
            forall|j: int| 0 <= j < i ==> codes@[j]@ != c@,
        decreases codes@.len() - i,
    {
        if same_text(codes[i].as_str(), c) {
            return true;
        }
        i = i + 1;
    }
    false
}

/// The byte length of a text, as `str::len` gives it.
pub open spec fn byte_len(s: Seq<char>) -> nat {
    vstd::utf8::encode_utf8(s).len()
}

/// Whether a code ends with three zeros.
pub open spec fn ends_with_000(c: Seq<char>) -> bool {
    c.len() >= 3 && c[c.len() - 1] == '0' && c[c.len() - 2] == '0' && c[c.len() - 3] == '0'
}

/// The byte length of the first code, in order, that ends with `000`.
pub open spec fn first_round_width(codes: Seq<String>, k: int) -> Option<nat>
    decreases codes.len() - k,
{
    if k < 0 || k >= codes.len() {
        None
    } else if ends_with_000(codes[k]@) {
        Some(byte_len(codes[k]@))
    } else {
        first_round_width(codes, k + 1)
    }
}

/// The width of root codes: that of the first existing round code, else the
/// width of the scheme's first level.
pub open spec fn root_width(codes: Seq<String>, first_level_width: nat) -> nat {
    match first_round_width(codes, 0) {
        Some(w) => w,
        None => first_level_width,
    }
}

/// The root code of serial `serial` at width `width`: the serial followed by
/// zeros up to the width.
pub open spec fn root_candidate(serial: int, width: nat) -> Seq<char> {
    if width > 1 {
        decimal_text(serial) + zeros((width - 1) as nat)
    } else {
        decimal_text(serial)
    }
}

fn ends_000(c: &str) -> (r: bool)
    ensures
        r == ends_with_000(c@),
{
    let v = chars_of(c);
    let n = v.len();
    n >= 3 && v[n - 1] == '0' && v[n - 2] == '0' && v[n - 3] == '0'
}

fn root_candidate_text(serial: i64, width: usize) -> (r: String)
    requires
        serial >= 0,
    ensures
        r@ == root_candidate(serial as int, width as nat),
{
    let mut s = int_text(serial);
    if width > 1 {
        let mut k: usize = 0;
        while k < width - 1
            invariant
                width > 1,
                0 <= k <= width - 1,
                s@ == decimal_text(serial as int) + zeros(k as nat),
            decreases width - 1 - k,
        {
            crate::text::push_char(&mut s, '0');
            k = k + 1;
            assert(s@ =~= decimal_text(serial as int) + zeros(k as nat));
        }
    }
    proof {
        if width <= 1 {
            assert(s@ == decimal_text(serial as int));
        }
    }
    s
}

fn round_width(codes: &Vec<String>) -> (r: Option<usize>)
    ensures
        match first_round_width(codes@, 0) {
            Some(w) => r matches Some(x) && x == w,
            None => r is None,
        },
{
    let mut k: usize = 0;
    while k < codes.len()
        invariant
            0 <= k <= codes@.len(),
            first_round_width(codes@, 0) == first_round_width(codes@, k as int),
        decreases codes@.len() - k,
    {
        if ends_000(codes[k].as_str()) {
            return Some(codes[k].as_str().as_bytes().len());
        }
        k = k + 1;
    }
    None
}

/// The first free code at the root level: serial 1, 2, ... up to 999, each
/// padded with zeros to the width of the existing root codes (else of the
/// scheme's first level); refused when all are taken.
pub fn suggest_root_code(codes: &Vec<String>, first_level_width: usize) -> (r: Result<String, CodingError>)
    ensures
        match first_free_root(codes@, root_width(codes@, first_level_width as nat), 1) {
            Some(k) => r matches Ok(c) && c@ == root_candidate(k, root_width(codes@, first_level_width as nat)),
            None => r == Err::<String, CodingError>(CodingError::RootLevelFull),
        },
        r matches Ok(c) ==> !code_taken(codes@, c@),
{
    let width: usize = match round_width(codes) {
        Some(w) => w,
        None => first_level_width,
    };
    let ghost w = root_width(codes@, first_level_width as nat);
    let mut serial: i64 = 1;
    while serial < 1000
        invariant
            1 <= serial <= 1000,
            w == width,
            w == root_width(codes@, first_level_width as nat),
            first_free_root(codes@, w, 1) == first_free_root(codes@, w, serial as int),
        decreases 1000 - serial,
    {
        let candidate = root_candidate_text(serial, width);
        if !contains_code(codes, candidate.as_str()) {
            proof {
                assert(first_free_root(codes@, w, serial as int) == Some(serial as int));
            }
            return Ok(candidate);
        }
        serial = serial + 1;
    }
    Err(CodingError::RootLevelFull)
}

/// The largest value among the first `n` codes that read as integers.
pub open spec fn max_parsed(codes: Seq<String>, n: int) -> Option<i64>
    decreases n,
{
    if n <= 0 {
        None
    } else {
        let rest = max_parsed(codes, n - 1);
        match parse_i64_spec(codes[n - 1]@) {
            None => rest,
            Some(v) => match rest {
                Some(m) => if m >= v {
                    Some(m)
                } else {
                    Some(v)
                },
                None => Some(v),
            },
        }
    }
}

/// Where numbering under a parent starts in a flat coding: the largest
/// sibling code that reads as a number, else the parent's own code, else 0.
pub open spec fn sibling_base(siblings: Seq<String>, parent_code: Seq<char>) -> i64 {
    match max_parsed(siblings, siblings.len() as int) {
        Some(m) => m,
        None => match parse_i64_spec(parent_code) {
            Some(p) => p,
            None => 0,
        },
    }
}

/// The width of codes under a parent in a flat coding: that of the first
/// sibling, else that of the parent's code.
pub open spec fn sibling_width(siblings: Seq<String>, parent_code: Seq<char>) -> nat {
    if siblings.len() > 0 {
        byte_len(siblings[0]@)
    } else {
        byte_len(parent_code)
    }
}

/// The base from which codes under a parent are numbered in a flat coding.
pub fn sibling_code_base(siblings: &Vec<String>, parent_code: &str) -> (r: i64)
    ensures
        r == sibling_base(siblings@, parent_code@),
{
    let mut best: Option<i64> = None;
    let mut i: usize = 0;
    while i < siblings.len()
        invariant
            0 <= i <= siblings@.len(),
            best == max_parsed(siblings@, i as int),
        decreases siblings@.len() - i,
    {
        match parse_i64(siblings[i].as_str()) {
            None => {},
            Some(v) => {
                best = match best {
                    Some(m) => if m >= v {
                        Some(m)
                    } else {
                        Some(v)
                    },
                    None => Some(v),
                };
            },
        }
        i = i + 1;
    }
    match best {
        Some(m) => m,
        None => match parse_i64(parent_code) {
            Some(p) => p,
            None => 0,
        },
    }
}

/// The first free code under a parent in a flat coding: `base + 1`,
/// `base + 2`, ... up to `base + 999`, zero-padded to the siblings' width;
/// refused when all are taken. `base` is what `sibling_code_base` gives.
pub fn suggest_sibling_code(siblings: &Vec<String>, parent_code: &str, base: i64, codes: &Vec<String>) -> (r: Result<String, CodingError>)
    requires
        base <= i64::MAX - 1000,
    ensures
        match first_free_step(codes@, base as int, sibling_width(siblings@, parent_code@), 1) {
            Some(k) => r matches Ok(c) && c@ == zero_padded(base + k, sibling_width(siblings@, parent_code@)),
            None => r == Err::<String, CodingError>(CodingError::NoFreeChildCode),
        },
        r matches Ok(c) ==> !code_taken(codes@, c@),
{
    let width: usize = if siblings.len() > 0 {
        siblings[0].as_str().as_bytes().len()
    } else {
        parent_code.as_bytes().len()
    };
    let ghost w = sibling_width(siblings@, parent_code@);
    let mut step: i64 = 1;
    while step < 1000
        invariant
            1 <= step <= 1000,
            base <= i64::MAX - 1000,
            w == width,
            w == sibling_width(siblings@, parent_code@),
            first_free_step(codes@, base as int, w, 1) == first_free_step(codes@, base as int, w, step as int),
        decreases 1000 - step,
    {
        let candidate = zero_padded_text(base + step, width);
        if !contains_code(codes, candidate.as_str()) {
            proof {
                assert(candidate@ == zero_padded(base + step, w));
                assert(first_free_step(codes@, base as int, w, step as int) == Some(step as int));
            }
            return Ok(candidate);
        }
        step = step + 1;
    }
    Err(CodingError::NoFreeChildCode)
}


/// A finding of the coding health report.
#[derive(Debug)]
pub struct CodingIssue {
    pub account_id: String,
    pub code: String,
    pub name: String,
    pub severity: String,
    pub message: String,
}

/// An active account as the health report reads it: how many children it
/// has, how many journal lines post to it, and whether its code fits the
/// current scheme.
#[derive(Debug)]
pub struct CodingAuditRow {
    pub id: String,
    pub code: String,
    pub name: String,
    pub level: String,
    pub children: i64,
    pub lines: i64,
    pub parent_id: Option<String>,
    pub fits_scheme: bool,
}

/// The three findings of the health report.
#[derive(Debug, Clone, Copy, PartialEq, Eq, Structural)]
pub enum IssueKind {
    /// Entries post directly to an account that has children.
    PostedToParent,
    /// Entries post directly to a top-level account.
    PostedToGroup,
    /// The code does not fit the scheme.
    OffScheme,
}

/// The findings for one account, in the report's order.
pub open spec fn row_issues(row: CodingAuditRow) -> Seq<IssueKind> {
    let a: Seq<IssueKind> = if row.children > 0 && row.lines > 0 {
        seq![IssueKind::PostedToParent]
    } else {
        Seq::empty()
    };
    let b: Seq<IssueKind> = if row.parent_id is None && row.lines > 0 {
        seq![IssueKind::PostedToGroup]
    } else {
        Seq::empty()
    };
    let c: Seq<IssueKind> = if !row.fits_scheme {
        seq![IssueKind::OffScheme]
    } else {
        Seq::empty()
    };
    a + b + c
}

/// The findings for the first `n` accounts: each with its row.
pub open spec fn report_of(rows: Seq<CodingAuditRow>, n: int) -> Seq<(int, IssueKind)>
    decreases n,
{
    if n <= 0 {
        Seq::empty()
    } else {
        report_of(rows, n - 1) + row_issues(rows[n - 1]).map_values(|k: IssueKind| (n - 1, k))
    }
}

/// The message of a finding.
pub open spec fn issue_message(row: CodingAuditRow, kind: IssueKind) -> Seq<char> {
    match kind {
        IssueKind::PostedToParent => "این حساب "@ + decimal_text(row.children as int) + " زیرحساب دارد ولی "@
            + decimal_text(row.lines as int) + " سطر سند مستقیم روی آن ثبت شده؛ جمع شاخه با مانده نمی‌خواند."@,
        IssueKind::PostedToGroup => "سند مستقیم روی حساب سطح گروه ثبت شده است."@,
        IssueKind::OffScheme => "طول این کد با طرح کدینگ فعلی نمی‌خواند؛ کدینگ مسطح است و کار می‌کند، ولی پیشنهاد کد خودکار برایش دقیق نیست."@,
    }
}

/// `issue` reports `kind` for `row`.
pub open spec fn issue_is(issue: CodingIssue, row: CodingAuditRow, kind: IssueKind) -> bool {
    &&& issue.account_id == row.id
    &&& issue.code == row.code
    &&& issue.name == row.name
    &&& issue.severity@ == (if kind == IssueKind::OffScheme {
        "info"@
    } else {
        "error"@
    })
    &&& issue.message@ == issue_message(row, kind)
}

fn make_issue(row: &CodingAuditRow, kind: IssueKind) -> (r: CodingIssue)
    ensures
        issue_is(r, *row, kind),
{
    let severity = match kind {
        IssueKind::OffScheme => String::from_str("info"),
        _ => String::from_str("error"),
    };
    let message = match kind {
        IssueKind::PostedToParent => {
            let m = String::from_str("این حساب ");
            let m = m.concat(int_text(row.children).as_str());
            let m = m.concat(" زیرحساب دارد ولی ");
            let m = m.concat(int_text(row.lines).as_str());
            m.concat(" سطر سند مستقیم روی آن ثبت شده؛ جمع شاخه با مانده نمی‌خواند.")
        },
        IssueKind::PostedToGroup => String::from_str("سند مستقیم روی حساب سطح گروه ثبت شده است."),
        IssueKind::OffScheme => String::from_str(
            "طول این کد با طرح کدینگ فعلی نمی‌خواند؛ کدینگ مسطح است و کار می‌کند، ولی پیشنهاد کد خودکار برایش دقیق نیست.",
        ),
    };
    CodingIssue { account_id: row.id.clone(), code: row.code.clone(), name: row.name.clone(), severity, message }
}

/// The coding health report: for each active account, in order, an error
/// where entries post directly to an account with children, an error where
/// entries post directly to a top-level account, and a note where its code
/// does not fit the scheme. None of these stops the books; each can be fixed.
pub fn audit_coding(rows: &Vec<CodingAuditRow>) -> (r: Vec<CodingIssue>)
    ensures
        r@.len() == report_of(rows@, rows@.len() as int).len(),
        forall|k: int| 0 <= k < r@.len() ==> #[trigger] issue_is(
            r@[k],
            rows@[report_of(rows@, rows@.len() as int)[k].0],
            report_of(rows@, rows@.len() as int)[k].1,
        ),
{
    let mut out: Vec<CodingIssue> = Vec::new();
    let mut i: usize = 0;
    while i < rows.len()
        invariant
            0 <= i <= rows@.len(),
            out@.len() == report_of(rows@, i as int).len(),
            forall|k: int| 0 <= k < out@.len() ==> #[trigger] issue_is(
                out@[k],
                rows@[report_of(rows@, i as int)[k].0],
                report_of(rows@, i as int)[k].1,
            ),
            forall|k: int| 0 <= k < report_of(rows@, i as int).len() ==> 0 <= #[trigger] report_of(rows@, i as int)[k].0 < i,
        decreases rows@.len() - i,
    {
        let row = &rows[i];
        let ghost before = report_of(rows@, i as int);
        let ghost added = row_issues(rows@[i as int]).map_values(|k: IssueKind| (i as int, k));
        let ghost start = out@.len();
        if row.children > 0 && row.lines > 0 {
            out.push(make_issue(row, IssueKind::PostedToParent));
        }
        if row.parent_id.is_none() && row.lines > 0 {
            out.push(make_issue(row, IssueKind::PostedToGroup));
        }
        if !row.fits_scheme {
            out.push(make_issue(row, IssueKind::OffScheme));
        }
        proof {
            let after = report_of(rows@, i + 1);
            assert(after == before + added);
            assert(out@.len() == after.len());
            assert forall|k: int| 0 <= k < out@.len() implies #[trigger] issue_is(
                out@[k],
                rows@[after[k].0],
                after[k].1,
            ) by {
                if k < start {
                    assert(after[k] == before[k]);
                } else {
                    assert(after[k] == added[k - start]);
                }
            }
            assert forall|k: int| 0 <= k < after.len() implies 0 <= #[trigger] after[k].0 < i + 1 by {
                if k < before.len() {
                    assert(after[k] == before[k]);
                } else {
                    assert(after[k] == added[k - before.len()]);
                }
            }
        }
        i = i + 1;
    }
    out
}

/// The checks on an account's name and nature, made before anything is
/// read: the trimmed name must not be blank and the nature must be known.
/// Gives the trimmed name and the nature.
pub fn check_account_form(name: &str, nature: &str) -> (r: Result<(String, AccountNature), CodingError>)
    ensures
        trim_seq(name@).len() == 0 ==> r == Err::<(String, AccountNature), CodingError>(CodingError::MissingName),
        trim_seq(name@).len() > 0 ==> match nature_of(nature@) {
            Ok(n) => r matches Ok(p) && p.0@ == trim_seq(name@) && p.1 == n,
            Err(e) => r == Err::<(String, AccountNature), CodingError>(e),
        },
{
    let n = trim(name);
    if n.unicode_len() == 0 {
        return Err(CodingError::MissingName);
    }
    let parsed = parse_nature(nature);
    match parsed {
        Ok(k) => Ok((crate::text::owned(n), k)),
        Err(e) => Err(e),
    }
}

/// An account code, once trimmed, must be a non-empty run of ASCII digits.
pub fn check_account_code(code: &str) -> (r: Result<(), CodingError>)
    ensures
        r is Ok <==> (code@.len() > 0 && all_digits(code@)),
        r is Err ==> r == Err::<(), CodingError>(CodingError::CodeNotDigits),
{
    let v = chars_of(code);
    if v.len() == 0 {
        return Err(CodingError::CodeNotDigits);
    }
    let mut i: usize = 0;
    while i < v.len()
        invariant
            0 <= i <= v@.len(),
            v@ == code@,
            forall|j: int| 0 <= j < i ==> crate::text::is_digit(#[trigger] v@[j]),
        decreases v@.len() - i,
    {
        if !(v[i] >= '0' && v[i] <= '9') {
            return Err(CodingError::CodeNotDigits);
        }
        i = i + 1;
    }
    Ok(())
}

/// The level of a child of an account at `parent_level`: one deeper, and at
/// most four levels in all.
pub fn child_level(parent_level: &str) -> (r: Result<usize, CodingError>)
    ensures
        level_of_name(parent_level@) + 1 > 3 ==> r == Err::<usize, CodingError>(CodingError::TooDeep),
        level_of_name(parent_level@) + 1 <= 3 ==> r == Ok::<usize, CodingError>((level_of_name(parent_level@) + 1) as usize),
{
    let next = level_from_db(parent_level) + 1;
    if next > 3 {
        Err(CodingError::TooDeep)
    } else {
        Ok(next)
    }
}

/// An account with movements keeps its code and its nature.
pub fn check_edit_with_movements(movements: i64, old_code: &str, code: &str, old_nature: &str, nature: &str) -> (r: Result<(), CodingError>)
    ensures
        movements <= 0 ==> r is Ok,
        movements > 0 && old_code@ != code@ ==> r == Err::<(), CodingError>(CodingError::CodeHasMovements),
        movements > 0 && old_code@ == code@ && old_nature@ != nature@ ==> r == Err::<(), CodingError>(CodingError::NatureHasMovements),
        movements > 0 && old_code@ == code@ && old_nature@ == nature@ ==> r is Ok,
{
    if movements > 0 {
        if !same_text(old_code, code) {
            return Err(CodingError::CodeHasMovements);
        }
        if !same_text(old_nature, nature) {
            return Err(CodingError::NatureHasMovements);
        }
    }
    Ok(())
}

/// An account with active children, or with an active treasury account
/// linked to it, cannot be deactivated.
pub fn check_deactivation(active_children: i64, linked_treasury: i64) -> (r: Result<(), CodingError>)
    ensures
        active_children > 0 ==> r == Err::<(), CodingError>(CodingError::HasActiveChildren),
        active_children <= 0 && linked_treasury > 0 ==> r == Err::<(), CodingError>(CodingError::LinkedToTreasury),
        active_children <= 0 && linked_treasury <= 0 ==> r is Ok,
{
    if active_children > 0 {
        return Err(CodingError::HasActiveChildren);
    }
    if linked_treasury > 0 {
        return Err(CodingError::LinkedToTreasury);
    }
    Ok(())
}

/// Checks that `code` is not the code of another account; `existing`
/// holds the codes of the company's other accounts.
pub fn check_code_unique(existing: &Vec<String>, code: &str) -> (r: Result<(), CodingError>)
    ensures
        code_taken(existing@, code@) ==> r == Err::<(), CodingError>(CodingError::DuplicateCode),
        !code_taken(existing@, code@) ==> r is Ok,
{
    if contains_code(existing, code) {
        Err(CodingError::DuplicateCode)
    } else {
        Ok(())
    }
}

} // verus!
