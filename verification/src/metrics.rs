//! What the process table says about a browser, and the metrics page.
use vstd::prelude::*;
use crate::text;

verus! {

/// One line of the process table.
#[derive(Clone, Debug)]
pub struct ProcessRow {
    pub pid: u32,
    pub parent: u32,
    /// Resident memory in units of 1024 bytes.
    pub rss_kb: u64,
    /// The share of CPU time, as the table spells it.
    pub cpu: String,
}

/// The resources of a process, or of a process and its descendants.
#[derive(Clone, Debug)]
pub struct ProcessSample {
    pub pid: u32,
    pub rss_bytes: u64,
    /// The shares of CPU time that add up to the sample's, in the order of the table.
    pub cpu: Vec<String>,
    pub process_count: usize,
}

/// A number of bytes that does not fit in 64 bits.
#[derive(Clone, Copy, Debug, PartialEq, Eq, Structural)]
pub struct RssOverflow;

/// What a line of the process table says.
#[verifier::ext_equal]
pub struct RowView {
    pub pid: int,
    pub parent: int,
    pub rss_kb: int,
    pub cpu: Seq<char>,
}

/// What a sample says.
#[verifier::ext_equal]
pub struct SampleView {
    pub pid: int,
    pub rss_bytes: int,
    pub cpu: Seq<Seq<char>>,
    pub process_count: int,
}

impl ProcessRow {
    pub open spec fn view(self) -> RowView {
        RowView {
            pid: self.pid as int,
            parent: self.parent as int,
            rss_kb: self.rss_kb as int,
            cpu: self.cpu@,
        }
    }
}

impl ProcessSample {
    pub open spec fn view(self) -> SampleView {
        SampleView {
            pid: self.pid as int,
            rss_bytes: self.rss_bytes as int,
            cpu: text::texts(self.cpu@),
            process_count: self.process_count as int,
        }
    }
}

/// The rows of a table.
pub open spec fn rows_view(rows: Seq<ProcessRow>) -> Seq<RowView> {
    Seq::new(rows.len(), |i: int| rows[i].view())
}

/// `source` without a sign in front.
pub open spec fn without_sign(source: Seq<char>) -> Seq<char> {
    if source.len() > 0 && (source[0] == '+' || source[0] == '-') {
        source.skip(1)
    } else {
        source
    }
}

/// Digits with at most one point among them, and at least one digit.
pub open spec fn is_mantissa(source: Seq<char>) -> bool {
    match text::cut_at(source, "."@) {
        Some(halves) => text::all_digits(halves.0) && text::all_digits(halves.1) && halves.0.len()
            + halves.1.len() > 0,
        None => source.len() > 0 && text::all_digits(source),
    }
}

/// A mantissa, and an exponent behind an `e`, where there is one.
pub open spec fn is_scientific(source: Seq<char>) -> bool {
    match text::cut_at(source, "e"@) {
        Some(halves) => is_mantissa(halves.0) && without_sign(halves.1).len() > 0
            && text::all_digits(without_sign(halves.1)),
        None => is_mantissa(source),
    }
}

/// Whether a text spells a floating-point number: an optional sign, then `inf`,
/// `infinity`, `nan` or a number in decimal or scientific notation, in either case.
pub open spec fn spells_float(source: Seq<char>) -> bool {
    let number = without_sign(text::lower(source));
    number == "inf"@ || number == "infinity"@ || number == "nan"@ || is_scientific(number)
}

/// The row that the words of a line make: two process numbers, a size and a share.
pub open spec fn row_of(words: Seq<Seq<char>>) -> Option<RowView> {
    if words.len() < 4 {
        None
    } else {
        match (
            text::parsed_number(words[0], u32::MAX as nat),
            text::parsed_number(words[1], u32::MAX as nat),
            text::parsed_number(words[2], u64::MAX as nat),
        ) {
            (Some(pid), Some(parent), Some(rss_kb)) => if spells_float(words[3]) {
                Some(
                    RowView {
                        pid: pid as int,
                        parent: parent as int,
                        rss_kb: rss_kb as int,
                        cpu: words[3],
                    },
                )
            } else {
                None
            },
            _ => None,
        }
    }
}

/// The rows of the lines that make one, in order.
pub open spec fn table_rows(lines: Seq<Seq<char>>) -> Seq<RowView>
    decreases lines.len(),
{
    if lines.len() == 0 {
        Seq::empty()
    } else {
        let before = table_rows(lines.drop_last());
        match row_of(text::words(lines.last())) {
            Some(row) => before.push(row),
            None => before,
        }
    }
}

/// The rows of a process table.
pub open spec fn table_of(output: Seq<char>) -> Seq<RowView> {
    table_rows(text::pieces(output, text::Separator::Is('\n')))
}

/// Whether `pid` is `root`, or a child, by some row, of what is `steps - 1` below it.
pub open spec fn is_below(rows: Seq<RowView>, root: int, pid: int, steps: nat) -> bool
    decreases steps,
{
    if steps == 0 {
        pid == root
    } else {
        exists|i: int|
            0 <= i < rows.len() && (#[trigger] rows[i]).pid == pid && is_below(
                rows,
                root,
                rows[i].parent,
                (steps - 1) as nat,
            )
    }
}

/// Whether `pid` is `root` or one of its descendants.
pub open spec fn in_tree(rows: Seq<RowView>, root: int, pid: int) -> bool {
    exists|steps: nat| is_below(rows, root, pid, steps)
}

/// Whether a row of the table is about `pid`.
pub open spec fn listed(rows: Seq<RowView>, pid: int) -> bool {
    exists|i: int| 0 <= i < rows.len() && (#[trigger] rows[i]).pid == pid
}

/// The rows about `root` and its descendants, in order.
pub open spec fn tree_rows(rows: Seq<RowView>, root: int) -> Seq<RowView> {
    rows.filter(|row: RowView| in_tree(rows, root, row.pid))
}

/// The bytes of memory of some rows.
pub open spec fn total_bytes(rows: Seq<RowView>) -> int
    decreases rows.len(),
{
    if rows.len() == 0 {
        0
    } else {
        total_bytes(rows.drop_last()) + rows.last().rss_kb * 1024
    }
}

/// Whether the memory of every row, taken by itself, is a number of bytes of 64 bits.
pub open spec fn sizes_fit(rows: Seq<RowView>) -> bool {
    forall|i: int| 0 <= i < rows.len() ==> (#[trigger] rows[i]).rss_kb * 1024 <= u64::MAX
}

/// The shares of CPU time of some rows, in order.
pub open spec fn shares_of(rows: Seq<RowView>) -> Seq<Seq<char>> {
    Seq::new(rows.len(), |i: int| rows[i].cpu)
}

/// The sample that some rows add up to.
pub open spec fn sample_of(pid: int, rows: Seq<RowView>) -> SampleView {
    SampleView {
        pid,
        rss_bytes: total_bytes(rows),
        cpu: shares_of(rows),
        process_count: rows.len() as int,
    }
}

/// The sample of the process tree below `root`: none where `root` is not listed,
/// an error where a number of bytes does not fit in 64 bits.
pub open spec fn tree_sample(rows: Seq<RowView>, root: int) -> Result<Option<SampleView>, RssOverflow> {
    if !sizes_fit(rows) {
        Err(RssOverflow)
    } else if !listed(rows, root) {
        Ok(None)
    } else if total_bytes(tree_rows(rows, root)) > u64::MAX {
        Err(RssOverflow)
    } else {
        Ok(Some(sample_of(root, tree_rows(rows, root))))
    }
}

/// A result of sampling as what it says.
pub open spec fn sampled(res: Result<Option<ProcessSample>, RssOverflow>) -> Result<
    Option<SampleView>,
    RssOverflow,
> {
    match res {
        Ok(Some(sample)) => Ok(Some(sample.view())),
        Ok(None) => Ok(None),
        Err(error) => Err(error),
    }
}

fn digits_only(source: &str) -> (res: bool)
    ensures
        res == text::all_digits(source@),
{
    let chars = text::chars_of(source);
    let mut i: usize = 0;
    while i < chars.len()
        invariant
            i <= chars.len(),
            chars@ == source@,
            forall|j: int| 0 <= j < i ==> text::is_digit(#[trigger] chars@[j]),
        decreases chars.len() - i,
    {
        let code: u32 = chars[i] as u32;
        if code < 48 || code > 57 {
            assert(!text::is_digit(source@[i as int]));
            return false;
        }
        i += 1;
    }
    true
}

fn drop_sign(source: &str) -> (res: String)
    ensures
        res@ == without_sign(source@),
{
    let chars = text::chars_of(source);
    if chars.len() > 0 && (chars[0] == '+' || chars[0] == '-') {
        text::text_of(&chars, 1, chars.len())
    } else {
        source.to_owned()
    }
}

fn mantissa(source: &str) -> (res: bool)
    ensures
        res == is_mantissa(source@),
{
    match text::split_once(source, ".") {
        Some(halves) => digits_only(halves.0.as_str()) && digits_only(halves.1.as_str()) && !(
        halves.0.as_str().is_empty() && halves.1.as_str().is_empty()),
        None => !source.is_empty() && digits_only(source),
    }
}

/// Whether a text spells a floating-point number.
pub fn float_text(source: &str) -> (res: bool)
    ensures
        res == spells_float(source@),
{
    let number = drop_sign(text::lowered(source).as_str());
    if text::str_eq(number.as_str(), "inf") || text::str_eq(number.as_str(), "infinity")
        || text::str_eq(number.as_str(), "nan") {
        return true;
    }
    match text::split_once(number.as_str(), "e") {
        Some(halves) => {
            let exponent = drop_sign(halves.1.as_str());
            mantissa(halves.0.as_str()) && !exponent.as_str().is_empty() && digits_only(
                exponent.as_str(),
            )
        },
        None => mantissa(number.as_str()),
    }
}

/// The row that a line of the process table makes.
pub fn parse_row(line: &str) -> (res: Option<ProcessRow>)
    ensures
        match res {
            Some(row) => row_of(text::words(line@)) == Some(row.view()),
            None => row_of(text::words(line@)) is None,
        },
{
    let words = text::split_words(line);
    let ghost spoken = text::words(line@);
    if words.len() < 4 {
        return None;
    }
    assert(spoken[0] == words@[0]@ && spoken[1] == words@[1]@ && spoken[2] == words@[2]@
        && spoken[3] == words@[3]@);
    let pid = match text::parse_number(words[0].as_str(), u32::MAX as u64) {
        Some(number) => number as u32,
        None => return None,
    };
    let parent = match text::parse_number(words[1].as_str(), u32::MAX as u64) {
        Some(number) => number as u32,
        None => return None,
    };
    let rss_kb = match text::parse_number(words[2].as_str(), u64::MAX) {
        Some(number) => number,
        None => return None,
    };
    if !float_text(words[3].as_str()) {
        return None;
    }
    Some(ProcessRow { pid, parent, rss_kb, cpu: words[3].clone() })
}

/// The rows of a process table: lines that are none are passed over.
pub fn parse_table(output: &str) -> (res: Vec<ProcessRow>)
    ensures
        rows_view(res@) == table_of(output@),
{
    let lines = text::split(output, text::Separator::Is('\n'));
    let ghost all = text::pieces(output@, text::Separator::Is('\n'));
    let mut rows: Vec<ProcessRow> = Vec::new();
    let mut i: usize = 0;
    assert(rows_view(rows@) =~= table_rows(all.take(0)));
    while i < lines.len()
        invariant
            i <= lines.len(),
            text::texts(lines@) == all,
            rows_view(rows@) == table_rows(all.take(i as int)),
        decreases lines.len() - i,
    {
        assert(all[i as int] == lines@[i as int]@);
        assert(all.take(i + 1).drop_last() =~= all.take(i as int));
        let ghost before = rows_view(rows@);
        match parse_row(lines[i].as_str()) {
            Some(row) => {
                let ghost added = row.view();
                rows.push(row);
                assert(rows_view(rows@) =~= before.push(added));
            },
            None => {},
        }
        i += 1;
    }
    assert(all.take(lines.len() as int) =~= all);
    rows
}

/// Whether everything that hangs, by some row, on one of the first `done` found
/// processes has been found.
pub open spec fn closed_below(rows: Seq<RowView>, found: Seq<u32>, done: int) -> bool {
    forall|k: int, i: int|
        0 <= k < done && 0 <= i < rows.len() && (#[trigger] rows[i]).parent == (#[trigger] found[k])
            ==> found.contains(rows[i].pid as u32)
}

proof fn lemma_child_in_tree(rows: Seq<RowView>, root: int, i: int)
    requires
        0 <= i < rows.len(),
        in_tree(rows, root, rows[i].parent),
    ensures
        in_tree(rows, root, rows[i].pid),
{
    let steps = choose|steps: nat| is_below(rows, root, rows[i].parent, steps);
    assert(is_below(rows, root, rows[i].pid, steps + 1));
}

proof fn lemma_tree_found(rows: Seq<RowView>, found: Seq<u32>, root: u32, pid: int, steps: nat)
    requires
        found.contains(root),
        closed_below(rows, found, found.len() as int),
        forall|i: int| 0 <= i < rows.len() ==> 0 <= (#[trigger] rows[i]).pid <= u32::MAX,
        forall|i: int| 0 <= i < rows.len() ==> 0 <= (#[trigger] rows[i]).parent <= u32::MAX,
        is_below(rows, root as int, pid, steps),
    ensures
        0 <= pid <= u32::MAX,
        found.contains(pid as u32),
    decreases steps,
{
    if steps > 0 {
        let i = choose|i: int|
            0 <= i < rows.len() && (#[trigger] rows[i]).pid == pid && is_below(
                rows,
                root as int,
                rows[i].parent,
                (steps - 1) as nat,
            );
        lemma_tree_found(rows, found, root, rows[i].parent, (steps - 1) as nat);
        let k = choose|k: int| 0 <= k < found.len() && found[k] == rows[i].parent as u32;
        assert(found[k] == rows[i].parent);
    }
}

proof fn lemma_few_found(rows: Seq<RowView>, found: Seq<u32>, root: u32)
    requires
        found.no_duplicates(),
        forall|i: int| 0 <= i < rows.len() ==> 0 <= (#[trigger] rows[i]).pid <= u32::MAX,
        forall|k: int|
            0 <= k < found.len() ==> (#[trigger] found[k]) == root || listed(rows, found[k] as int),
    ensures
        found.len() <= rows.len() + 1,
{
    let pids = Seq::new(rows.len(), |i: int| rows[i].pid as u32).push(root);
    found.unique_seq_to_set();
    pids.lemma_cardinality_of_set();
    assert(found.to_set().subset_of(pids.to_set())) by {
        assert forall|p: u32| found.to_set().contains(p) implies pids.to_set().contains(p) by {
            let k = choose|k: int| 0 <= k < found.len() && found[k] == p;
            if found[k] == root {
                assert(pids[rows.len() as int] == p);
            } else {
                let i = choose|i: int| 0 <= i < rows.len() && (#[trigger] rows[i]).pid == p;
                assert(pids[i] == p);
            }
        }
    }
    vstd::set_lib::lemma_len_subset(found.to_set(), pids.to_set());
}

fn holds_pid(found: &Vec<u32>, pid: u32) -> (res: bool)
    ensures
        res == found@.contains(pid),
{
    let mut i: usize = 0;
    while i < found.len()
        invariant
            i <= found.len(),
            forall|j: int| 0 <= j < i ==> found@[j] != pid,
        decreases found.len() - i,
    {
        if found[i] == pid {
            assert(found@[i as int] == pid);
            return true;
        }
        i += 1;
    }
    false
}

/// `root` and its descendants, each once.
pub fn descendants_of(rows: &Vec<ProcessRow>, root: u32) -> (res: Vec<u32>)
    ensures
        res@.no_duplicates(),
        forall|pid: u32| res@.contains(pid) <==> in_tree(rows_view(rows@), root as int, pid as int),
{
    let ghost table = rows_view(rows@);
    let mut found: Vec<u32> = Vec::new();
    found.push(root);
    let mut cursor: usize = 0;
    assert(is_below(table, root as int, root as int, 0));
    proof {
        lemma_few_found(table, found@, root);
    }
    while cursor < found.len()
        invariant
            table == rows_view(rows@),
            cursor <= found.len(),
            found.len() > 0,
            found@[0] == root,
            found@.no_duplicates(),
            forall|k: int| 0 <= k < found.len() ==> in_tree(table, root as int, #[trigger] found@[k] as int),
            forall|k: int|
                0 <= k < found.len() ==> (#[trigger] found@[k]) == root || listed(table, found@[k] as int),
            closed_below(table, found@, cursor as int),
            found.len() <= table.len() + 1,
        decreases table.len() + 1 - cursor,
    {
        let current = found[cursor];
        let mut i: usize = 0;
        while i < rows.len()
            invariant
                table == rows_view(rows@),
                i <= rows.len(),
                cursor < found.len(),
                found@[0] == root,
                found@[cursor as int] == current,
                found@.no_duplicates(),
                forall|k: int|
                    0 <= k < found.len() ==> in_tree(table, root as int, #[trigger] found@[k] as int),
                forall|k: int|
                    0 <= k < found.len() ==> (#[trigger] found@[k]) == root || listed(
                        table,
                        found@[k] as int,
                    ),
                closed_below(table, found@, cursor as int),
                forall|j: int|
                    0 <= j < i && (#[trigger] table[j]).parent == current ==> found@.contains(
                        table[j].pid as u32,
                    ),
                found.len() <= table.len() + 1,
            decreases rows.len() - i,
        {
            let child = rows[i].pid;
            assert(table[i as int] == rows@[i as int].view());
            if rows[i].parent == current && !holds_pid(&found, child) {
                let ghost before = found@;
                proof {
                    assert(in_tree(table, root as int, found@[cursor as int] as int));
                    lemma_child_in_tree(table, root as int, i as int);
                    assert(listed(table, child as int));
                }
                found.push(child);
                proof {
                    assert forall|p: u32| before.contains(p) implies found@.contains(p) by {
                        let k = choose|k: int| 0 <= k < before.len() && before[k] == p;
                        assert(found@[k] == p);
                    }
                    assert(found@[before.len() as int] == child);
                    assert(closed_below(table, found@, cursor as int)) by {
                        assert forall|k: int, j: int|
                            0 <= k < cursor && 0 <= j < table.len() && (#[trigger] table[j]).parent == (
                            #[trigger] found@[k]) implies found@.contains(table[j].pid as u32) by {
                            assert(before[k] == found@[k]);
                        }
                    }
                    lemma_few_found(table, found@, root);
                }
            }
            i += 1;
        }
        cursor += 1;
    }
    proof {
        assert(found@.contains(root)) by {
            assert(found@[0] == root);
        }
        assert forall|pid: u32| found@.contains(pid) <==> in_tree(table, root as int, pid as int) by {
            if in_tree(table, root as int, pid as int) {
                let steps = choose|steps: nat| is_below(table, root as int, pid as int, steps);
                lemma_tree_found(table, found@, root, pid as int, steps);
            }
        }
    }
    found
}

/// Adds up the rows about the found processes; the bytes may take more than 64 bits.
fn gather(rows: &Vec<ProcessRow>, found: &Vec<u32>, root: u32) -> (res: (u128, Vec<String>, usize))
    requires
        forall|pid: u32|
            found@.contains(pid) <==> in_tree(rows_view(rows@), root as int, pid as int),
        sizes_fit(rows_view(rows@)),
    ensures
        res.0 == total_bytes(tree_rows(rows_view(rows@), root as int)),
        text::texts(res.1@) == shares_of(tree_rows(rows_view(rows@), root as int)),
        res.2 == tree_rows(rows_view(rows@), root as int).len(),
{
    let ghost table = rows_view(rows@);
    let ghost keep = |row: RowView| in_tree(table, root as int, row.pid);
    let mut bytes: u128 = 0;
    let mut cpu: Vec<String> = Vec::new();
    let mut count: usize = 0;
    let mut i: usize = 0;
    assert(table.take(0).filter(keep) =~= Seq::<RowView>::empty()) by {
        reveal(Seq::filter);
    }
    while i < rows.len()
        invariant
            i <= rows.len(),
            table == rows_view(rows@),
            keep == (|row: RowView| in_tree(table, root as int, row.pid)),
            forall|pid: u32| found@.contains(pid) <==> in_tree(table, root as int, pid as int),
            sizes_fit(table),
            count == table.take(i as int).filter(keep).len(),
            count <= i,
            bytes == total_bytes(table.take(i as int).filter(keep)),
            bytes <= i as nat * u64::MAX as nat,
            text::texts(cpu@) == shares_of(table.take(i as int).filter(keep)),
        decreases rows.len() - i,
    {
        let ghost row = table[i as int];
        let ghost before = table.take(i as int).filter(keep);
        let ghost after = table.take(i + 1).filter(keep);
        assert(row == rows@[i as int].view());
        assert(after == if keep(row) {
            before.push(row)
        } else {
            before
        }) by {
            reveal(Seq::filter);
            assert(table.take(i + 1).drop_last() =~= table.take(i as int));
        }
        assert(row.rss_kb * 1024 <= u64::MAX);
        assert((i + 1) * u64::MAX == i * u64::MAX + u64::MAX) by (nonlinear_arith);
        assert(i as nat * u64::MAX as nat + u64::MAX <= u128::MAX) by (nonlinear_arith)
            requires
                i <= u64::MAX,
        ;
        if holds_pid(found, rows[i].pid) {
            assert(after.drop_last() =~= before);
            bytes = bytes + rows[i].rss_kb as u128 * 1024;
            let ghost shown = text::texts(cpu@);
            cpu.push(rows[i].cpu.clone());
            assert(text::texts(cpu@) =~= shown.push(row.cpu));
            assert(shares_of(after) =~= shares_of(before).push(row.cpu));
            count += 1;
        }
        i += 1;
    }
    assert(table.take(rows.len() as int) =~= table);
    (bytes, cpu, count)
}

/// The sample of `root` and its descendants.
pub fn process_tree(rows: &Vec<ProcessRow>, root: u32) -> (res: Result<
    Option<ProcessSample>,
    RssOverflow,
>)
    ensures
        sampled(res) == tree_sample(rows_view(rows@), root as int),
{
    let ghost table = rows_view(rows@);
    let mut is_listed = false;
    let mut i: usize = 0;
    while i < rows.len()
        invariant
            i <= rows.len(),
            table == rows_view(rows@),
            forall|j: int| 0 <= j < i ==> (#[trigger] table[j]).rss_kb * 1024 <= u64::MAX,
            is_listed ==> listed(table, root as int),
            !is_listed ==> forall|j: int| 0 <= j < i ==> (#[trigger] table[j]).pid != root,
        decreases rows.len() - i,
    {
        assert(table[i as int] == rows@[i as int].view());
        if rows[i].rss_kb > u64::MAX / 1024 {
            assert(table[i as int].rss_kb * 1024 > u64::MAX);
            return Err(RssOverflow);
        }
        if rows[i].pid == root {
            is_listed = true;
        }
        i += 1;
    }
    if !is_listed {
        return Ok(None);
    }
    let found = descendants_of(rows, root);
    let (bytes, cpu, count) = gather(rows, &found, root);
    if bytes > u64::MAX as u128 {
        return Err(RssOverflow);
    }
    Ok(Some(ProcessSample { pid: root, rss_bytes: bytes as u64, cpu, process_count: count }))
}

/// Samples a process and its descendants, from the output of
/// `ps` with the columns pid, parent, resident memory and CPU share.
pub fn sample_process_tree(output: &str, pid: u32) -> (res: Result<Option<ProcessSample>, RssOverflow>)
    ensures
        sampled(res) == tree_sample(table_of(output@), pid as int),
{
    let rows = parse_table(output);
    process_tree(&rows, pid)
}

/// The first of some lines that is not blank.
pub open spec fn first_line(lines: Seq<Seq<char>>) -> Option<Seq<char>>
    decreases lines.len(),
{
    if lines.len() == 0 {
        None
    } else if !text::is_blank(lines[0]) {
        Some(lines[0])
    } else {
        first_line(lines.skip(1))
    }
}

/// The size and the share that the words of a line begin with.
pub open spec fn single_of(words: Seq<Seq<char>>) -> Option<(int, Seq<char>)> {
    if words.len() < 2 {
        None
    } else {
        match text::parsed_number(words[0], u64::MAX as nat) {
            Some(rss_kb) => if spells_float(words[1]) {
                Some((rss_kb as int, words[1]))
            } else {
                None
            },
            None => None,
        }
    }
}

/// The sample of one process: none where the first line that is not blank does
/// not begin with a size and a share.
pub open spec fn single_sample(output: Seq<char>, pid: int) -> Result<Option<SampleView>, RssOverflow> {
    match first_line(text::pieces(output, text::Separator::Is('\n'))) {
        Some(line) => match single_of(text::words(line)) {
            Some((rss_kb, share)) => if rss_kb * 1024 > u64::MAX {
                Err(RssOverflow)
            } else {
                Ok(
                    Some(
                        SampleView {
                            pid,
                            rss_bytes: rss_kb * 1024,
                            cpu: seq![share],
                            process_count: 1,
                        },
                    ),
                )
            },
            None => Ok(None),
        },
        None => Ok(None),
    }
}

/// Samples one process, from the output of `ps` with the columns resident
/// memory and CPU share.
pub fn sample_process(output: &str, pid: u32) -> (res: Result<Option<ProcessSample>, RssOverflow>)
    ensures
        sampled(res) == single_sample(output@, pid as int),
{
    let lines = text::split(output, text::Separator::Is('\n'));
    let ghost all = text::pieces(output@, text::Separator::Is('\n'));
    let mut i: usize = 0;
    assert(all.skip(0) =~= all);
    while i < lines.len() && text::blank(lines[i].as_str())
        invariant
            i <= lines.len(),
            text::texts(lines@) == all,
            first_line(all) == first_line(all.skip(i as int)),
        decreases lines.len() - i,
    {
        assert(all.skip(i as int)[0] == lines@[i as int]@);
        assert(all.skip(i as int).skip(1) =~= all.skip(i + 1));
        i += 1;
    }
    if i == lines.len() {
        return Ok(None);
    }
    assert(all.skip(i as int)[0] == lines@[i as int]@);
    let words = text::split_words(lines[i].as_str());
    if words.len() < 2 {
        return Ok(None);
    }
    let ghost spoken = text::words(lines@[i as int]@);
    assert(spoken[0] == words@[0]@ && spoken[1] == words@[1]@);
    let rss_kb = match text::parse_number(words[0].as_str(), u64::MAX) {
        Some(number) => number,
        None => return Ok(None),
    };
    if !float_text(words[1].as_str()) {
        return Ok(None);
    }
    if rss_kb > u64::MAX / 1024 {
        return Err(RssOverflow);
    }
    let mut cpu: Vec<String> = Vec::new();
    cpu.push(words[1].clone());
    assert(text::texts(cpu@) =~= seq![words@[1]@]);
    Ok(Some(ProcessSample { pid, rss_bytes: rss_kb * 1024, cpu, process_count: 1 }))
}

/// The metrics of one session.
#[derive(Clone, Debug)]
pub struct SessionMetric {
    pub id: String,
    pub state: String,
    pub pid: Option<u32>,
    pub rss_bytes: Option<u64>,
    /// The share of CPU time, as it is displayed.
    pub cpu_percent: Option<String>,
    pub process_count: Option<usize>,
    pub age_seconds: u64,
    pub idle_seconds: u64,
}

/// The metrics of the pool and of its sessions.
#[derive(Clone, Debug)]
pub struct PoolMetrics {
    pub active_sessions: usize,
    pub max_concurrent_sessions: usize,
    pub sessions_created_total: u64,
    pub sessions_hard_killed_total: u64,
    pub sessions_rejected_total: u64,
    pub sessions_rss_limit_recycled_total: u64,
    pub sessions_idle_recycled_total: u64,
    pub sessions_lifetime_recycled_total: u64,
    pub sessions_process_exit_recycled_total: u64,
    pub sessions_cdp_unhealthy_recycled_total: u64,
    pub sessions: Vec<SessionMetric>,
}

/// A character as it stands inside a quoted label value.
pub open spec fn label_char(c: char) -> Seq<char> {
    if c == '\\' {
        seq!['\\', '\\']
    } else if c == '"' {
        seq!['\\', '"']
    } else {
        seq![c]
    }
}

/// A text as it stands inside a quoted label value.
pub open spec fn label_text(value: Seq<char>) -> Seq<char>
    decreases value.len(),
{
    if value.len() == 0 {
        Seq::empty()
    } else {
        label_text(value.drop_last()) + label_char(value.last())
    }
}

/// The two lines that introduce a metric.
pub open spec fn metric_head(name: Seq<char>, kind: Seq<char>, help: Seq<char>) -> Seq<char> {
    "# HELP "@ + name + " "@ + help + "\n"@ + "# TYPE "@ + name + " "@ + kind + "\n"@
}

/// A metric with one value.
pub open spec fn metric_block(name: Seq<char>, kind: Seq<char>, help: Seq<char>, value: nat) -> Seq<char> {
    metric_head(name, kind, help) + name + " "@ + text::decimal(value) + "\n"@
}

/// Which of a session's values a metric shows.
#[derive(Clone, Copy, PartialEq, Eq, Structural)]
pub enum Shown {
    Rss,
    Cpu,
    Processes,
}

/// The value that a metric shows of a session.
pub open spec fn shown_value(session: SessionMetric, shown: Shown) -> Option<Seq<char>> {
    match shown {
        Shown::Rss => match session.rss_bytes {
            Some(value) => Some(text::decimal(value as nat)),
            None => None,
        },
        Shown::Cpu => text::opt_text(session.cpu_percent),
        Shown::Processes => match session.process_count {
            Some(value) => Some(text::decimal(value as nat)),
            None => None,
        },
    }
}

/// The line of one session.
pub open spec fn session_line(name: Seq<char>, session: SessionMetric, value: Seq<char>) -> Seq<char> {
    name + "{session=\""@ + label_text(session.id@) + "\",state=\""@ + label_text(session.state@)
        + "\"} "@ + value + "\n"@
}

/// One line for each session that has a value, in order.
pub open spec fn session_lines(name: Seq<char>, sessions: Seq<SessionMetric>, shown: Shown) -> Seq<char>
    decreases sessions.len(),
{
    if sessions.len() == 0 {
        Seq::empty()
    } else {
        let before = session_lines(name, sessions.drop_last(), shown);
        match shown_value(sessions.last(), shown) {
            Some(value) => before + session_line(name, sessions.last(), value),
            None => before,
        }
    }
}

/// A metric with one value for each session.
pub open spec fn session_block(name: Seq<char>, help: Seq<char>, sessions: Seq<SessionMetric>, shown: Shown) -> Seq<char> {
    metric_head(name, "gauge"@, help) + session_lines(name, sessions, shown)
}

/// The metrics page in the exposition format of Prometheus.
pub open spec fn prometheus_page(metrics: PoolMetrics) -> Seq<char> {
    metric_block(
        "eiger_sessions_active"@,
        "gauge"@,
        "Active browser sessions."@,
        metrics.active_sessions as nat,
    ) + metric_block(
        "eiger_sessions_max"@,
        "gauge"@,
        "Maximum concurrently allowed browser sessions."@,
        metrics.max_concurrent_sessions as nat,
    ) + metric_block(
        "eiger_sessions_created_total"@,
        "counter"@,
        "Browser sessions created."@,
        metrics.sessions_created_total as nat,
    ) + metric_block(
        "eiger_sessions_hard_killed_total"@,
        "counter"@,
        "Browser sessions that required SIGKILL."@,
        metrics.sessions_hard_killed_total as nat,
    ) + metric_block(
        "eiger_sessions_rejected_total"@,
        "counter"@,
        "Session requests rejected by capacity or timeout."@,
        metrics.sessions_rejected_total as nat,
    ) + metric_block(
        "eiger_sessions_rss_limit_recycled_total"@,
        "counter"@,
        "Sessions recycled after exceeding their RSS ceiling."@,
        metrics.sessions_rss_limit_recycled_total as nat,
    ) + metric_block(
        "eiger_sessions_idle_recycled_total"@,
        "counter"@,
        "Sessions recycled after idle timeout."@,
        metrics.sessions_idle_recycled_total as nat,
    ) + metric_block(
        "eiger_sessions_lifetime_recycled_total"@,
        "counter"@,
        "Sessions recycled after max lifetime."@,
        metrics.sessions_lifetime_recycled_total as nat,
    ) + metric_block(
        "eiger_sessions_process_exit_recycled_total"@,
        "counter"@,
        "Sessions recycled because their browser process exited."@,
        metrics.sessions_process_exit_recycled_total as nat,
    ) + metric_block(
        "eiger_sessions_cdp_unhealthy_recycled_total"@,
        "counter"@,
        "Sessions recycled after CDP health-check failure."@,
        metrics.sessions_cdp_unhealthy_recycled_total as nat,
    ) + session_block(
        "eiger_session_rss_bytes"@,
        "Browser process resident memory by session."@,
        metrics.sessions@,
        Shown::Rss,
    ) + session_block(
        "eiger_session_cpu_percent"@,
        "Browser process CPU percent by session."@,
        metrics.sessions@,
        Shown::Cpu,
    ) + session_block(
        "eiger_session_processes"@,
        "Browser process-tree process count by session."@,
        metrics.sessions@,
        Shown::Processes,
    )
}

/// A text as it stands inside a quoted label value: backslashes and quotes escaped.
pub fn escape_label(value: &str) -> (res: String)
    ensures
        res@ == label_text(value@),
{
    let mut out = String::new();
    for c in it: value.chars()
        invariant
            it.seq() == value@,
            out@ == label_text(value@.take(it.index() as int)),
    {
        assert(value@.take(it.index() + 1).drop_last() =~= value@.take(it.index() as int));
        let ghost before = out@;
        if c == '\\' || c == '"' {
            out.push('\\');
        }
        out.push(c);
        assert(out@ =~= before + label_char(c));
    }
    assert(value@.take(value@.len() as int) =~= value@);
    out
}

fn push_head(out: &mut String, name: &str, kind: &str, help: &str)
    ensures
        final(out)@ == old(out)@ + metric_head(name@, kind@, help@),
{
    let ghost start = out@;
    out.append("# HELP ");
    out.append(name);
    out.append(" ");
    out.append(help);
    out.append("\n");
    out.append("# TYPE ");
    out.append(name);
    out.append(" ");
    out.append(kind);
    out.append("\n");
    assert(out@ =~= start + metric_head(name@, kind@, help@));
}

fn push_metric(out: &mut String, name: &str, kind: &str, help: &str, value: u64)
    ensures
        final(out)@ == old(out)@ + metric_block(name@, kind@, help@, value as nat),
{
    let ghost start = out@;
    push_head(out, name, kind, help);
    out.append(name);
    out.append(" ");
    text::push_decimal(out, value);
    out.append("\n");
    assert(out@ =~= start + metric_block(name@, kind@, help@, value as nat));
}

fn value_shown(session: &SessionMetric, shown: Shown) -> (res: Option<String>)
    ensures
        text::opt_text(res) == shown_value(*session, shown),
{
    match shown {
        Shown::Rss => match session.rss_bytes {
            Some(value) => Some(text::decimal_text(value)),
            None => None,
        },
        Shown::Cpu => session.cpu_percent.clone(),
        Shown::Processes => match session.process_count {
            Some(value) => Some(text::decimal_text(value as u64)),
            None => None,
        },
    }
}

fn push_sessions(out: &mut String, name: &str, help: &str, sessions: &Vec<SessionMetric>, shown: Shown)
    ensures
        final(out)@ == old(out)@ + session_block(name@, help@, sessions@, shown),
{
    let ghost start = out@;
    push_head(out, name, "gauge", help);
    let ghost head = out@;
    let mut i: usize = 0;
    assert(out@ =~= head + session_lines(name@, sessions@.take(0), shown));
    while i < sessions.len()
        invariant
            i <= sessions.len(),
            out@ == head + session_lines(name@, sessions@.take(i as int), shown),
        decreases sessions.len() - i,
    {
        let session = &sessions[i];
        assert(sessions@.take(i + 1).drop_last() =~= sessions@.take(i as int));
        let ghost before = session_lines(name@, sessions@.take(i as int), shown);
        match value_shown(session, shown) {
            Some(value) => {
                out.append(name);
                out.append("{session=\"");
                out.append(escape_label(session.id.as_str()).as_str());
                out.append("\",state=\"");
                out.append(escape_label(session.state.as_str()).as_str());
                out.append("\"} ");
                out.append(value.as_str());
                out.append("\n");
                assert(out@ =~= head + (before + session_line(name@, *session, value@)));
            },
            None => {},
        }
        i += 1;
    }
    assert(sessions@.take(sessions.len() as int) =~= sessions@);
    assert(out@ =~= start + session_block(name@, help@, sessions@, shown));
}

/// The metrics page in the exposition format of Prometheus.
pub fn render_prometheus(metrics: &PoolMetrics) -> (res: String)
    ensures
        res@ == prometheus_page(*metrics),
{
    let mut out = String::new();
    push_metric(
        &mut out,
        "eiger_sessions_active",
        "gauge",
        "Active browser sessions.",
        metrics.active_sessions as u64,
    );
    push_metric(
        &mut out,
        "eiger_sessions_max",
        "gauge",
        "Maximum concurrently allowed browser sessions.",
        metrics.max_concurrent_sessions as u64,
    );
    push_metric(
        &mut out,
        "eiger_sessions_created_total",
        "counter",
        "Browser sessions created.",
        metrics.sessions_created_total,
    );
    push_metric(
        &mut out,
        "eiger_sessions_hard_killed_total",
        "counter",
        "Browser sessions that required SIGKILL.",
        metrics.sessions_hard_killed_total,
    );
    push_metric(
        &mut out,
        "eiger_sessions_rejected_total",
        "counter",
        "Session requests rejected by capacity or timeout.",
        metrics.sessions_rejected_total,
    );
    push_metric(
        &mut out,
        "eiger_sessions_rss_limit_recycled_total",
        "counter",
        "Sessions recycled after exceeding their RSS ceiling.",
        metrics.sessions_rss_limit_recycled_total,
    );
    push_metric(
        &mut out,
        "eiger_sessions_idle_recycled_total",
        "counter",
        "Sessions recycled after idle timeout.",
        metrics.sessions_idle_recycled_total,
    );
    push_metric(
        &mut out,
        "eiger_sessions_lifetime_recycled_total",
        "counter",
        "Sessions recycled after max lifetime.",
        metrics.sessions_lifetime_recycled_total,
    );
    push_metric(
        &mut out,
        "eiger_sessions_process_exit_recycled_total",
        "counter",
        "Sessions recycled because their browser process exited.",
        metrics.sessions_process_exit_recycled_total,
    );
    push_metric(
        &mut out,
        "eiger_sessions_cdp_unhealthy_recycled_total",
        "counter",
        "Sessions recycled after CDP health-check failure.",
        metrics.sessions_cdp_unhealthy_recycled_total,
    );
    push_sessions(
        &mut out,
        "eiger_session_rss_bytes",
        "Browser process resident memory by session.",
        &metrics.sessions,
        Shown::Rss,
    );
    push_sessions(
        &mut out,
        "eiger_session_cpu_percent",
        "Browser process CPU percent by session.",
        &metrics.sessions,
        Shown::Cpu,
    );
    push_sessions(
        &mut out,
        "eiger_session_processes",
        "Browser process-tree process count by session.",
        &metrics.sessions,
        Shown::Processes,
    );
    out
}

/// The value that the text inside a quoted label stands for; nothing where the quote
/// would end before the text does.
pub open spec fn label_value(label: Seq<char>) -> Option<Seq<char>>
    decreases label.len(),
{
    if label.len() == 0 {
        Some(Seq::empty())
    } else if label[0] == '"' {
        None
    } else if label[0] == '\\' {
        if label.len() == 1 {
            None
        } else {
            match label_value(label.skip(2)) {
                Some(rest) => Some(seq![label[1]] + rest),
                None => None,
            }
        }
    } else {
        match label_value(label.skip(1)) {
            Some(rest) => Some(seq![label[0]] + rest),
            None => None,
        }
    }
}

proof fn lemma_label_from_left(value: Seq<char>)
    requires
        value.len() > 0,
    ensures
        label_text(value) == label_char(value[0]) + label_text(value.skip(1)),
    decreases value.len(),
{
    if value.len() == 1 {
        assert(value.drop_last() =~= Seq::<char>::empty());
        assert(value.skip(1) =~= Seq::<char>::empty());
        assert(label_text(value) =~= label_char(value[0]) + label_text(value.skip(1)));
    } else {
        let before = value.drop_last();
        lemma_label_from_left(before);
        assert(before.skip(1) =~= value.skip(1).drop_last());
        assert(label_text(value) =~= label_char(value[0]) + label_text(value.skip(1)));
    }
}

/// Whatever a label holds, it stands in the metrics so that its quote ends where the
/// label does and the label can be read back.
pub proof fn law_labels_read_back(value: Seq<char>)
    ensures
        label_value(label_text(value)) == Some(value),
    decreases value.len(),
{
    if value.len() > 0 {
        lemma_label_from_left(value);
        law_labels_read_back(value.skip(1));
        let rest = label_text(value.skip(1));
        let all = label_text(value);
        if value[0] == '\\' || value[0] == '"' {
            assert(all.skip(2) =~= rest);
        } else {
            assert(all.skip(1) =~= rest);
        }
        assert(seq![value[0]] + value.skip(1) =~= value);
    }
}

proof fn lemma_same_rows_below(
    a: Seq<RowView>,
    b: Seq<RowView>,
    root: int,
    pid: int,
    steps: nat,
)
    requires
        forall|row: RowView| a.contains(row) ==> b.contains(row),
        is_below(a, root, pid, steps),
    ensures
        is_below(b, root, pid, steps),
    decreases steps,
{
    if steps > 0 {
        let shorter = (steps - 1) as nat;
        let i = choose|i: int|
            0 <= i < a.len() && (#[trigger] a[i]).pid == pid && is_below(
                a,
                root,
                a[i].parent,
                shorter,
            );
        lemma_same_rows_below(a, b, root, a[i].parent, shorter);
        assert(a.contains(a[i]));
        let j = choose|j: int| 0 <= j < b.len() && b[j] == a[i];
        assert(b[j].pid == pid && is_below(b, root, b[j].parent, shorter));
    }
}

/// Tables with the same rows have the same trees.
proof fn lemma_same_rows(a: Seq<RowView>, b: Seq<RowView>, root: int)
    requires
        forall|row: RowView| a.contains(row) <==> b.contains(row),
    ensures
        sizes_fit(a) == sizes_fit(b),
        listed(a, root) == listed(b, root),
        forall|pid: int| in_tree(a, root, pid) == in_tree(b, root, pid),
{
    assert forall|i: int| 0 <= i < a.len() implies b.contains(#[trigger] a[i]) by {
        assert(a.contains(a[i]));
    }
    assert forall|j: int| 0 <= j < b.len() implies a.contains(#[trigger] b[j]) by {
        assert(b.contains(b[j]));
    }
    assert forall|pid: int| in_tree(a, root, pid) == in_tree(b, root, pid) by {
        if in_tree(a, root, pid) {
            let steps = choose|steps: nat| is_below(a, root, pid, steps);
            lemma_same_rows_below(a, b, root, pid, steps);
        }
        if in_tree(b, root, pid) {
            let steps = choose|steps: nat| is_below(b, root, pid, steps);
            lemma_same_rows_below(b, a, root, pid, steps);
        }
    }
}

/// What a row that is left out takes away from the rows that are kept.
proof fn lemma_left_out(rows: Seq<RowView>, keep: spec_fn(RowView) -> bool, at: int)
    requires
        0 <= at < rows.len(),
    ensures
        ({
            let kept = rows.filter(keep);
            let others = rows.remove(at).filter(keep);
            &&& kept.len() == others.len() + if keep(rows[at]) {
                1int
            } else {
                0
            }
            &&& total_bytes(kept) == total_bytes(others) + if keep(rows[at]) {
                rows[at].rss_kb * 1024
            } else {
                0
            }
        }),
    decreases rows.len(),
{
    let before = rows.drop_last();
    let last = rows.last();
    lemma_last_kept(rows, keep);
    if at == rows.len() - 1 {
        assert(rows.remove(at) =~= before);
    } else {
        lemma_left_out(before, keep, at);
        let others = rows.remove(at);
        assert(others.drop_last() =~= before.remove(at));
        assert(others.last() == last);
        lemma_last_kept(others, keep);
    }
}

proof fn lemma_last_kept(rows: Seq<RowView>, keep: spec_fn(RowView) -> bool)
    requires
        rows.len() > 0,
    ensures
        ({
            let before = rows.drop_last().filter(keep);
            if keep(rows.last()) {
                &&& rows.filter(keep).len() == before.len() + 1
                &&& total_bytes(rows.filter(keep)) == total_bytes(before) + rows.last().rss_kb
                    * 1024
            } else {
                rows.filter(keep) == before
            }
        }),
{
    reveal(Seq::filter);
    let before = rows.drop_last().filter(keep);
    if keep(rows.last()) {
        assert(rows.filter(keep) == before.push(rows.last()));
        assert(before.push(rows.last()).drop_last() =~= before);
    }
}

/// Rows that are kept take as much in whatever order they come.
proof fn lemma_kept_in_any_order(
    a: Seq<RowView>,
    b: Seq<RowView>,
    keep: spec_fn(RowView) -> bool,
)
    requires
        a.to_multiset() == b.to_multiset(),
    ensures
        a.filter(keep).len() == b.filter(keep).len(),
        total_bytes(a.filter(keep)) == total_bytes(b.filter(keep)),
    decreases a.len(),
{
    broadcast use vstd::seq_lib::group_to_multiset_ensures;

    assert(a.len() == a.to_multiset().len());
    assert(b.len() == b.to_multiset().len());
    if a.len() == 0 {
        assert(a =~= b);
    } else {
        let at = a.len() - 1;
        let row = a[at];
        assert(a.contains(row));
        assert(b.to_multiset().count(row) > 0);
        let j = choose|j: int| 0 <= j < b.len() && b[j] == row;
        lemma_left_out(a, keep, at);
        lemma_left_out(b, keep, j);
        assert(a.remove(at).to_multiset() =~= a.to_multiset().remove(row));
        assert(b.remove(j).to_multiset() =~= b.to_multiset().remove(row));
        lemma_kept_in_any_order(a.remove(at), b.remove(j), keep);
    }
}

/// Whether two samples of a process tree come to the same: both failed, both found
/// nothing, or both found as much memory in as many processes.
pub open spec fn same_size(
    left: Result<Option<SampleView>, RssOverflow>,
    right: Result<Option<SampleView>, RssOverflow>,
) -> bool {
    match (left, right) {
        (Ok(Some(l)), Ok(Some(r))) => l.rss_bytes == r.rss_bytes && l.process_count
            == r.process_count,
        _ => left == right,
    }
}

/// The same rows in another order give the same memory and number of processes.
pub proof fn law_order_is_free(a: Seq<RowView>, b: Seq<RowView>, root: int)
    requires
        a.to_multiset() == b.to_multiset(),
    ensures
        same_size(tree_sample(a, root), tree_sample(b, root)),
{
    assert forall|row: RowView| a.contains(row) <==> b.contains(row) by {
        vstd::seq_lib::to_multiset_contains(a, row);
        vstd::seq_lib::to_multiset_contains(b, row);
    }
    lemma_same_rows(a, b, root);
    let keep = |row: RowView| in_tree(a, root, row.pid);
    let kept = |row: RowView| in_tree(b, root, row.pid);
    assert(keep =~= kept);
    lemma_kept_in_any_order(a, b, keep);
}

proof fn lemma_rows_left_out(lines: Seq<Seq<char>>, at: int)
    requires
        0 <= at < lines.len(),
    ensures
        table_rows(lines).to_multiset() == match row_of(text::words(lines[at])) {
            Some(row) => table_rows(lines.remove(at)).to_multiset().insert(row),
            None => table_rows(lines.remove(at)).to_multiset(),
        },
    decreases lines.len(),
{
    broadcast use vstd::seq_lib::group_to_multiset_ensures;

    let before = lines.drop_last();
    if at == lines.len() - 1 {
        assert(lines.remove(at) =~= before);
    } else {
        lemma_rows_left_out(before, at);
        let others = lines.remove(at);
        assert(others.drop_last() =~= before.remove(at));
        assert(others.last() == lines.last());
        assert(before[at] == lines[at]);
    }
    assert(table_rows(lines).to_multiset() =~= match row_of(text::words(lines[at])) {
        Some(row) => table_rows(lines.remove(at)).to_multiset().insert(row),
        None => table_rows(lines.remove(at)).to_multiset(),
    });
}

proof fn lemma_rows_of_lines(a: Seq<Seq<char>>, b: Seq<Seq<char>>)
    requires
        a.to_multiset() == b.to_multiset(),
    ensures
        table_rows(a).to_multiset() == table_rows(b).to_multiset(),
    decreases a.len(),
{
    broadcast use vstd::seq_lib::group_to_multiset_ensures;

    assert(a.len() == a.to_multiset().len());
    assert(b.len() == b.to_multiset().len());
    if a.len() == 0 {
        assert(a =~= b);
    } else {
        let at = a.len() - 1;
        let line = a[at];
        assert(a.contains(line));
        assert(b.to_multiset().count(line) > 0);
        let j = choose|j: int| 0 <= j < b.len() && b[j] == line;
        lemma_rows_left_out(a, at);
        lemma_rows_left_out(b, j);
        assert(a.remove(at).to_multiset() =~= a.to_multiset().remove(line));
        assert(b.remove(j).to_multiset() =~= b.to_multiset().remove(line));
        lemma_rows_of_lines(a.remove(at), b.remove(j));
    }
}

/// A process table whose lines come in another order gives the same memory and number of
/// processes.
pub proof fn law_order_of_lines_is_free(left: Seq<char>, right: Seq<char>, root: int)
    requires
        text::pieces(left, text::Separator::Is('\n')).to_multiset() == text::pieces(
            right,
            text::Separator::Is('\n'),
        ).to_multiset(),
    ensures
        same_size(tree_sample(table_of(left), root), tree_sample(table_of(right), root)),
{
    lemma_rows_of_lines(
        text::pieces(left, text::Separator::Is('\n')),
        text::pieces(right, text::Separator::Is('\n')),
    );
    law_order_is_free(table_of(left), table_of(right), root);
}

/// The processes of a tree are the root and, with each of them, every process that
/// the table lists as its child.
pub proof fn law_tree_holds_children(rows: Seq<RowView>, root: int, i: int)
    requires
        0 <= i < rows.len(),
    ensures
        in_tree(rows, root, root),
        in_tree(rows, root, rows[i].parent) ==> in_tree(rows, root, rows[i].pid),
{
    assert(is_below(rows, root, root, 0));
    if in_tree(rows, root, rows[i].parent) {
        lemma_child_in_tree(rows, root, i);
    }
}

/// A row of the process table is the numbers of a process and of its parent, its memory and
/// its share of CPU time, whatever follows them.
pub proof fn law_rows_are_read(
    pid: nat,
    parent: nat,
    rss_kb: nat,
    share: Seq<char>,
    more: Seq<Seq<char>>,
)
    requires
        pid <= u32::MAX,
        parent <= u32::MAX,
        rss_kb <= u64::MAX,
    ensures
        ({
            let words = seq![text::decimal(pid), text::decimal(parent), text::decimal(rss_kb), share]
                + more;
            &&& spells_float(share) ==> row_of(words) == Some(
                RowView {
                    pid: pid as int,
                    parent: parent as int,
                    rss_kb: rss_kb as int,
                    cpu: share,
                },
            )
            &&& !spells_float(share) ==> row_of(words) is None
        }),
{
    text::law_numbers_read_back(pid, u32::MAX as nat);
    text::law_numbers_read_back(parent, u32::MAX as nat);
    text::law_numbers_read_back(rss_kb, u64::MAX as nat);
}

/// A line with fewer than four words, or with something else than its three numbers, is no
/// row.
pub proof fn law_other_lines_are_no_rows(words: Seq<Seq<char>>)
    requires
        words.len() < 4 || text::parsed_number(words[0], u32::MAX as nat) is None
            || text::parsed_number(words[1], u32::MAX as nat) is None || text::parsed_number(
            words[2],
            u64::MAX as nat,
        ) is None,
    ensures
        row_of(words) is None,
{
}

proof fn lemma_rows_in_turn(left: Seq<Seq<char>>, right: Seq<Seq<char>>)
    ensures
        table_rows(left + right) == table_rows(left) + table_rows(right),
    decreases right.len(),
{
    if right.len() == 0 {
        assert(left + right =~= left);
        assert(table_rows(left + right) =~= table_rows(left) + table_rows(right));
    } else {
        lemma_rows_in_turn(left, right.drop_last());
        assert((left + right).drop_last() =~= left + right.drop_last());
        assert((left + right).last() == right.last());
        assert(table_rows(left + right) =~= table_rows(left) + table_rows(right));
    }
}

/// The table is read line by line, and each line is a row or falls away.
pub proof fn law_tables_are_read_by_lines(left: Seq<char>, right: Seq<char>, line: Seq<char>)
    requires
        !line.contains('\n'),
    ensures
        table_of(left.push('\n') + right) == table_of(left) + table_of(right),
        match row_of(text::words(line)) {
            Some(row) => table_of(line) == seq![row],
            None => table_of(line).len() == 0,
        },
{
    let separator = text::Separator::Is('\n');
    text::law_pieces_are_split(left, '\n', right, separator);
    lemma_rows_in_turn(text::pieces(left, separator), text::pieces(right, separator));
    assert forall|i: int| 0 <= i < line.len() implies !text::separates(
        separator,
        #[trigger] line[i],
    ) by {
        assert(line.contains(line[i]));
    }
    text::law_one_piece(line, separator);
    let lines = seq![line];
    assert(lines.drop_last() =~= Seq::<Seq<char>>::empty());
    assert(table_rows(lines.drop_last()) =~= Seq::<RowView>::empty());
    assert(lines.last() == line);
    if let Some(row) = row_of(text::words(line)) {
        assert(Seq::<RowView>::empty().push(row) =~= seq![row]);
    }
}

proof fn lemma_digits_are_plain(text: Seq<char>)
    requires
        text::all_digits(text),
    ensures
        text::lower(text) == text,
        without_sign(text) == text,
        text::cut_at(text, "e"@) is None,
        text::cut_at(text, "."@) is None,
{
    assert(text::lower(text) =~= text);
    reveal_strlit("e");
    reveal_strlit(".");
    if text.len() > 0 {
        assert(text::is_digit(text[0]));
    }
    if text::contains_text(text, "e"@) {
        let at = choose|at: int| text::occurs_at(text, "e"@, at);
        assert(text.subrange(at, at + 1)[0] == text[at]);
        assert(text::is_digit(text[at]));
    }
    if text::contains_text(text, "."@) {
        let at = choose|at: int| text::occurs_at(text, "."@, at);
        assert(text.subrange(at, at + 1)[0] == text[at]);
        assert(text::is_digit(text[at]));
    }
    text::law_texts_are_cut(Seq::empty(), "e"@, Seq::empty(), text);
    text::law_texts_are_cut(Seq::empty(), "."@, Seq::empty(), text);
}

/// Shares are digits, with a point among them or not; nothing, or what is no number, is no
/// share.
pub proof fn law_shares_are_numbers(whole: Seq<char>, part: Seq<char>)
    requires
        text::all_digits(whole),
        text::all_digits(part),
        whole.len() > 0,
    ensures
        spells_float(whole),
        spells_float(whole + "."@ + part),
        spells_float("-"@ + (whole + "."@ + part)),
        !spells_float(Seq::empty()),
        !spells_float("."@),
        !spells_float("-"@),
{
    reveal_strlit("e");
    reveal_strlit(".");
    reveal_strlit("-");
    reveal_strlit("inf");
    reveal_strlit("infinity");
    reveal_strlit("nan");
    lemma_digits_are_plain(whole);
    lemma_digits_are_plain(Seq::empty());
    let number = whole + "."@ + part;
    lemma_decimals_are_plain(whole, part);
    assert(text::lower("-"@ + number) =~= "-"@ + text::lower(number));
    assert(without_sign("-"@ + number) =~= number);
    lemma_decimals_are_plain(Seq::empty(), Seq::empty());
    assert(Seq::<char>::empty() + "."@ + Seq::<char>::empty() =~= "."@);
    assert(text::lower("-"@) =~= "-"@);
    assert(without_sign("-"@) =~= Seq::<char>::empty());
    assert("."@.len() == 1 && "inf"@.len() == 3 && "infinity"@.len() == 8 && "nan"@.len() == 3);
}

proof fn lemma_decimals_are_plain(whole: Seq<char>, part: Seq<char>)
    requires
        text::all_digits(whole),
        text::all_digits(part),
    ensures
        ({
            let number = whole + "."@ + part;
            &&& text::lower(number) == number
            &&& without_sign(number) == number
            &&& text::cut_at(number, "e"@) is None
            &&& text::cut_at(number, "."@) == Some((whole, part))
        }),
{
    reveal_strlit("e");
    reveal_strlit(".");
    let number = whole + "."@ + part;
    assert forall|i: int| 0 <= i < number.len() implies text::is_digit(#[trigger] number[i])
        || number[i] == '.' by {
        if i < whole.len() {
            assert(text::is_digit(whole[i]));
        } else if i > whole.len() {
            assert(text::is_digit(part[i - whole.len() - 1]));
        }
    }
    assert(text::lower(number) =~= number);
    if text::contains_text(number, "e"@) {
        let at = choose|at: int| text::occurs_at(number, "e"@, at);
        assert(number.subrange(at, at + 1)[0] == number[at]);
        assert(text::is_digit(number[at]) || number[at] == '.');
    }
    text::law_texts_are_cut(Seq::empty(), "e"@, Seq::empty(), number);
    assert forall|at: int| 0 <= at < whole.len() implies !#[trigger] text::occurs_at(
        number,
        "."@,
        at,
    ) by {
        if text::occurs_at(number, "."@, at) {
            assert(number.subrange(at, at + 1)[0] == number[at]);
            assert(text::is_digit(whole[at]));
        }
    }
    text::law_texts_are_cut(whole, "."@, part, whole);
    assert(number[0] == number[0]);
}

/// A process belongs to a tree just where it is the root, or its parent belongs to it.
pub proof fn law_trees_hold_descendants_alone(rows: Seq<RowView>, root: int, pid: int)
    ensures
        in_tree(rows, root, pid) <==> pid == root || exists|i: int|
            0 <= i < rows.len() && (#[trigger] rows[i]).pid == pid && in_tree(
                rows,
                root,
                rows[i].parent,
            ),
{
    if in_tree(rows, root, pid) {
        let steps = choose|steps: nat| is_below(rows, root, pid, steps);
        if steps > 0 {
            let i = choose|i: int|
                0 <= i < rows.len() && (#[trigger] rows[i]).pid == pid && is_below(
                    rows,
                    root,
                    rows[i].parent,
                    (steps - 1) as nat,
                );
            assert(is_below(rows, root, rows[i].parent, (steps - 1) as nat));
            assert(in_tree(rows, root, rows[i].parent));
        }
    } else {
        if pid == root {
            assert(is_below(rows, root, pid, 0));
        }
        if exists|i: int|
            0 <= i < rows.len() && (#[trigger] rows[i]).pid == pid && in_tree(
                rows,
                root,
                rows[i].parent,
            ) {
            let i = choose|i: int|
                0 <= i < rows.len() && (#[trigger] rows[i]).pid == pid && in_tree(
                    rows,
                    root,
                    rows[i].parent,
                );
            law_tree_holds_children(rows, root, i);
        }
    }
}

/// A set of processes that holds the root and every child of its own holds the whole tree.
pub proof fn law_trees_are_smallest(
    rows: Seq<RowView>,
    root: int,
    pid: int,
    held: Set<int>,
)
    requires
        held.contains(root),
        forall|i: int|
            0 <= i < rows.len() && held.contains((#[trigger] rows[i]).parent) ==> held.contains(
                rows[i].pid,
            ),
        in_tree(rows, root, pid),
    ensures
        held.contains(pid),
{
    let steps = choose|steps: nat| is_below(rows, root, pid, steps);
    lemma_below_is_held(rows, root, pid, held, steps);
}

proof fn lemma_below_is_held(
    rows: Seq<RowView>,
    root: int,
    pid: int,
    held: Set<int>,
    steps: nat,
)
    requires
        held.contains(root),
        forall|i: int|
            0 <= i < rows.len() && held.contains((#[trigger] rows[i]).parent) ==> held.contains(
                rows[i].pid,
            ),
        is_below(rows, root, pid, steps),
    ensures
        held.contains(pid),
    decreases steps,
{
    if steps > 0 {
        let i = choose|i: int|
            0 <= i < rows.len() && (#[trigger] rows[i]).pid == pid && is_below(
                rows,
                root,
                rows[i].parent,
                (steps - 1) as nat,
            );
        lemma_below_is_held(rows, root, rows[i].parent, held, (steps - 1) as nat);
    }
}

proof fn lemma_totals_add(left: Seq<RowView>, right: Seq<RowView>)
    ensures
        total_bytes(left + right) == total_bytes(left) + total_bytes(right),
    decreases right.len(),
{
    if right.len() == 0 {
        assert(left + right =~= left);
    } else {
        lemma_totals_add(left, right.drop_last());
        assert((left + right).drop_last() =~= left + right.drop_last());
        assert((left + right).last() == right.last());
    }
}

/// The memory of processes is the sum of theirs, in units of 1024 bytes.
pub proof fn law_memory_adds_up(left: Seq<RowView>, right: Seq<RowView>, row: RowView)
    ensures
        total_bytes(left + right) == total_bytes(left) + total_bytes(right),
        total_bytes(seq![row]) == row.rss_kb * 1024,
        total_bytes(Seq::empty()) == 0,
{
    lemma_totals_add(left, right);
    assert(seq![row].drop_last() =~= Seq::<RowView>::empty());
    assert(total_bytes(seq![row].drop_last()) == 0);
}

/// The sample of a tree is that of its root, over exactly the rows whose process belongs to
/// the tree: how many they are, their memory together, and their shares in order. There is
/// none where the root is not listed, and too much memory is told.
pub proof fn law_trees_are_sampled(rows: Seq<RowView>, root: int, row: RowView)
    requires
        forall|i: int| 0 <= i < rows.len() ==> (#[trigger] rows[i]).rss_kb * 1024 <= u64::MAX,
    ensures
        ({
            let listed_root = exists|i: int| 0 <= i < rows.len() && (#[trigger] rows[i]).pid == root;
            let held = tree_rows(rows, root);
            let sample = tree_sample(rows, root);
            &&& held.contains(row) <==> rows.contains(row) && in_tree(rows, root, row.pid)
            &&& !listed_root ==> sample == Ok::<Option<SampleView>, RssOverflow>(None)
            &&& listed_root && total_bytes(held) > u64::MAX ==> sample is Err
            &&& listed_root && total_bytes(held) <= u64::MAX ==> sample is Ok && sample->Ok_0
                is Some && {
                let taken = sample->Ok_0->Some_0;
                &&& taken.pid == root
                &&& taken.rss_bytes == total_bytes(held)
                &&& taken.process_count == held.len()
                &&& taken.cpu.len() == held.len()
                &&& forall|i: int| 0 <= i < held.len() ==> #[trigger] taken.cpu[i] == held[i].cpu
            }
        }),
{
    let pred = |row: RowView| in_tree(rows, root, row.pid);
    if rows.contains(row) && in_tree(rows, root, row.pid) {
        let i = choose|i: int| 0 <= i < rows.len() && rows[i] == row;
        rows.lemma_filter_contains(pred, i);
    }
    if tree_rows(rows, root).contains(row) {
        let held = rows.filter(pred);
        let k = choose|k: int| 0 <= k < held.len() && held[k] == row;
        rows.lemma_filter_pred(pred, k);
        lemma_filtered_is_there(rows, pred, row);
    }
}

proof fn lemma_filtered_is_there(rows: Seq<RowView>, pred: spec_fn(RowView) -> bool, row: RowView)
    requires
        rows.filter(pred).contains(row),
    ensures
        rows.contains(row),
    decreases rows.len(),
{
    reveal(Seq::filter);
    if rows.len() > 0 {
        let before = rows.drop_last().filter(pred);
        let k = choose|k: int| 0 <= k < rows.filter(pred).len() && rows.filter(pred)[k] == row;
        if pred(rows.last()) && k == before.len() {
            assert(rows[rows.len() - 1] == row);
        } else {
            assert(before[k] == row);
            lemma_filtered_is_there(rows.drop_last(), pred, row);
            let i = choose|i: int| 0 <= i < rows.len() - 1 && rows.drop_last()[i] == row;
            assert(rows[i] == row);
        }
    }
}

/// Where every row belongs to the tree, each is counted once and in its place.
pub proof fn law_rows_are_counted_one_by_one(rows: Seq<RowView>, root: int)
    requires
        forall|i: int| 0 <= i < rows.len() ==> in_tree(rows, root, (#[trigger] rows[i]).pid),
    ensures
        tree_rows(rows, root) == rows,
{
    lemma_all_filtered(rows, |row: RowView| in_tree(rows, root, row.pid));
}

proof fn lemma_all_filtered(rows: Seq<RowView>, pred: spec_fn(RowView) -> bool)
    requires
        forall|i: int| 0 <= i < rows.len() ==> pred(#[trigger] rows[i]),
    ensures
        rows.filter(pred) == rows,
    decreases rows.len(),
{
    reveal(Seq::filter);
    if rows.len() > 0 {
        let before = rows.drop_last();
        assert forall|i: int| 0 <= i < before.len() implies pred(#[trigger] before[i]) by {
            assert(before[i] == rows[i]);
        }
        lemma_all_filtered(before, pred);
        assert(pred(rows[rows.len() - 1]));
        assert(before.push(rows.last()) =~= rows);
    } else {
        assert(rows.filter(pred) =~= rows);
    }
}

/// The sample of one process is read from its first line that is not blank: its memory in
/// units of 1024 bytes and its share, whatever follows them.
pub proof fn law_single_processes_are_sampled(
    line: Seq<char>,
    rss_kb: nat,
    share: Seq<char>,
    more: Seq<Seq<char>>,
    pid: int,
)
    requires
        !line.contains('\n'),
        text::trim(line).len() > 0,
        text::words(line) == seq![text::decimal(rss_kb), share] + more,
        spells_float(share),
        rss_kb * 1024 <= u64::MAX,
    ensures
        single_sample(line, pid) == Ok::<Option<SampleView>, RssOverflow>(
            Some(
                SampleView {
                    pid,
                    rss_bytes: rss_kb as int * 1024,
                    cpu: seq![share],
                    process_count: 1,
                },
            ),
        ),
        single_sample(line.push('\n') + Seq::<char>::empty(), pid) == single_sample(line, pid),
        single_sample(seq!['\n'] + line, pid) == single_sample(line, pid),
        single_sample(Seq::empty(), pid) == Ok::<Option<SampleView>, RssOverflow>(None),
{
    let separator = text::Separator::Is('\n');
    assert forall|i: int| 0 <= i < line.len() implies !text::separates(
        separator,
        #[trigger] line[i],
    ) by {
        assert(line.contains(line[i]));
    }
    text::law_one_piece(line, separator);
    text::law_pieces_are_split(line, '\n', Seq::empty(), separator);
    text::law_pieces_are_split(Seq::empty(), '\n', line, separator);
    assert(Seq::<char>::empty().push('\n') =~= seq!['\n']);
    text::law_numbers_read_back(rss_kb, u64::MAX as nat);
    let empty = text::pieces(Seq::empty(), separator);
    text::law_trimming(Seq::empty(), Seq::empty(), Seq::empty());
    assert(Seq::<char>::empty() + Seq::<char>::empty() =~= Seq::<char>::empty());
    assert(empty[0] =~= Seq::<char>::empty());
    assert(empty.skip(1) =~= Seq::<Seq<char>>::empty());
    assert(first_line(empty.skip(1)) is None);
    let late = text::pieces(seq!['\n'] + line, separator);
    assert(late =~= seq![Seq::<char>::empty(), line]);
    assert(late.skip(1) =~= seq![line]);
}

/// What is shown of a session: its memory, its share of CPU time or its processes, and
/// nothing where it is not known.
pub proof fn law_sessions_show_their_values(session: SessionMetric)
    ensures
        session.rss_bytes is Some ==> shown_value(session, Shown::Rss) == Some(
            text::decimal(session.rss_bytes->Some_0 as nat),
        ),
        session.rss_bytes is None ==> shown_value(session, Shown::Rss) is None,
        session.cpu_percent is Some ==> shown_value(session, Shown::Cpu) == Some(
            session.cpu_percent->Some_0@,
        ),
        session.cpu_percent is None ==> shown_value(session, Shown::Cpu) is None,
        session.process_count is Some ==> shown_value(session, Shown::Processes) == Some(
            text::decimal(session.process_count->Some_0 as nat),
        ),
        session.process_count is None ==> shown_value(session, Shown::Processes) is None,
{
}

/// Each session has a line under a name where its value is known, labelled with its number
/// and its state, and the lines follow each other.
pub proof fn law_sessions_have_lines(
    name: Seq<char>,
    left: Seq<SessionMetric>,
    right: Seq<SessionMetric>,
    session: SessionMetric,
    shown: Shown,
)
    ensures
        session_lines(name, left + right, shown) == session_lines(name, left, shown)
            + session_lines(name, right, shown),
        match shown_value(session, shown) {
            Some(value) => session_lines(name, seq![session], shown) == name + "{session=\""@
                + label_text(session.id@) + "\",state=\""@ + label_text(session.state@) + "\"} "@
                + value + "\n"@,
            None => session_lines(name, seq![session], shown).len() == 0,
        },
    decreases right.len(),
{
    let one = seq![session];
    assert(one.drop_last() =~= Seq::<SessionMetric>::empty());
    assert(session_lines(name, one.drop_last(), shown) =~= Seq::<char>::empty());
    if let Some(value) = shown_value(session, shown) {
        assert(session_lines(name, one, shown) =~= session_line(name, session, value));
    }
    let all = left + right;
    if right.len() == 0 {
        assert(all =~= left);
        assert(session_lines(name, all, shown) =~= session_lines(name, left, shown)
            + session_lines(name, right, shown));
    } else {
        law_sessions_have_lines(name, left, right.drop_last(), session, shown);
        assert(all.drop_last() =~= left + right.drop_last());
        assert(all.last() == right.last());
        assert(session_lines(name, all, shown) =~= session_lines(name, left, shown)
            + session_lines(name, right, shown));
    }
}

/// Texts one after the other.
pub open spec fn joined(parts: Seq<Seq<char>>) -> Seq<char>
    decreases parts.len(),
{
    if parts.len() == 0 {
        Seq::empty()
    } else {
        joined(parts.drop_last()) + parts.last()
    }
}

proof fn lemma_block_in_page(blocks: Seq<Seq<char>>, at: int)
    requires
        0 <= at < blocks.len(),
    ensures
        text::contains_text(joined(blocks), blocks[at]),
    decreases blocks.len(),
{
    let before = joined(blocks.drop_last());
    let whole = joined(blocks);
    let part = blocks[at];
    if at == blocks.len() - 1 {
        assert(whole.subrange(before.len() as int, (before.len() + part.len()) as int) =~= part);
        assert(text::occurs_at(whole, part, before.len() as int));
    } else {
        lemma_block_in_page(blocks.drop_last(), at);
        assert(blocks.drop_last()[at] == part);
        let i = choose|i: int| text::occurs_at(before, part, i);
        assert(whole.subrange(i, i + part.len()) =~= before.subrange(i, i + part.len()));
        assert(text::occurs_at(whole, part, i));
    }
}

proof fn lemma_value_in_block(
    page: Seq<char>,
    name: Seq<char>,
    kind: Seq<char>,
    help: Seq<char>,
    value: Seq<char>,
)
    requires
        text::contains_text(page, metric_head(name, kind, help) + value),
    ensures
        text::contains_text(page, "# TYPE "@ + name + " "@ + kind + "\n"@ + value),
{
    let first = "# HELP "@ + name + " "@ + help + "\n"@;
    let part = "# TYPE "@ + name + " "@ + kind + "\n"@ + value;
    let block = metric_head(name, kind, help) + value;
    assert(block =~= first + part);
    let at = choose|at: int| text::occurs_at(page, block, at);
    let from = at + first.len();
    assert(page.subrange(from, from + part.len()) =~= block.subrange(
        first.len() as int,
        (first.len() + part.len()) as int,
    ));
    assert(block.subrange(first.len() as int, (first.len() + part.len()) as int) =~= part);
    assert(text::occurs_at(page, part, from));
}

/// The page of metrics in its parts.
spec fn page_blocks(metrics: PoolMetrics) -> Seq<Seq<char>> {
    seq![
        metric_block(
            "eiger_sessions_active"@,
            "gauge"@,
            "Active browser sessions."@,
            metrics.active_sessions as nat,
        ),
        metric_block(
            "eiger_sessions_max"@,
            "gauge"@,
            "Maximum concurrently allowed browser sessions."@,
            metrics.max_concurrent_sessions as nat,
        ),
        metric_block(
            "eiger_sessions_created_total"@,
            "counter"@,
            "Browser sessions created."@,
            metrics.sessions_created_total as nat,
        ),
        metric_block(
            "eiger_sessions_hard_killed_total"@,
            "counter"@,
            "Browser sessions that required SIGKILL."@,
            metrics.sessions_hard_killed_total as nat,
        ),
        metric_block(
            "eiger_sessions_rejected_total"@,
            "counter"@,
            "Session requests rejected by capacity or timeout."@,
            metrics.sessions_rejected_total as nat,
        ),
        metric_block(
            "eiger_sessions_rss_limit_recycled_total"@,
            "counter"@,
            "Sessions recycled after exceeding their RSS ceiling."@,
            metrics.sessions_rss_limit_recycled_total as nat,
        ),
        metric_block(
            "eiger_sessions_idle_recycled_total"@,
            "counter"@,
            "Sessions recycled after idle timeout."@,
            metrics.sessions_idle_recycled_total as nat,
        ),
        metric_block(
            "eiger_sessions_lifetime_recycled_total"@,
            "counter"@,
            "Sessions recycled after max lifetime."@,
            metrics.sessions_lifetime_recycled_total as nat,
        ),
        metric_block(
            "eiger_sessions_process_exit_recycled_total"@,
            "counter"@,
            "Sessions recycled because their browser process exited."@,
            metrics.sessions_process_exit_recycled_total as nat,
        ),
        metric_block(
            "eiger_sessions_cdp_unhealthy_recycled_total"@,
            "counter"@,
            "Sessions recycled after CDP health-check failure."@,
            metrics.sessions_cdp_unhealthy_recycled_total as nat,
        ),
        session_block(
            "eiger_session_rss_bytes"@,
            "Browser process resident memory by session."@,
            metrics.sessions@,
            Shown::Rss,
        ),
        session_block(
            "eiger_session_cpu_percent"@,
            "Browser process CPU percent by session."@,
            metrics.sessions@,
            Shown::Cpu,
        ),
        session_block(
            "eiger_session_processes"@,
            "Browser process-tree process count by session."@,
            metrics.sessions@,
            Shown::Processes,
        ),
    ]
}

proof fn lemma_page_is_its_blocks(metrics: PoolMetrics)
    ensures
        prometheus_page(metrics) == joined(page_blocks(metrics)),
{
    lemma_joined_13(page_blocks(metrics));
}

proof fn lemma_count_in_page(
    page: Seq<char>,
    blocks: Seq<Seq<char>>,
    at: int,
    name: Seq<char>,
    kind: Seq<char>,
    help: Seq<char>,
    value: nat,
)
    requires
        page == joined(blocks),
        0 <= at < blocks.len(),
        blocks[at] == metric_block(name, kind, help, value),
    ensures
        text::contains_text(
            page,
            "# TYPE "@ + name + " "@ + kind + "\n"@ + name + " "@ + text::decimal(value) + "\n"@,
        ),
{
    let rest = name + " "@ + text::decimal(value) + "\n"@;
    assert(metric_block(name, kind, help, value) =~= metric_head(name, kind, help) + rest);
    lemma_block_in_page(blocks, at);
    lemma_value_in_block(page, name, kind, help, rest);
    assert("# TYPE "@ + name + " "@ + kind + "\n"@ + rest =~= "# TYPE "@ + name + " "@ + kind
        + "\n"@ + name + " "@ + text::decimal(value) + "\n"@);
}

proof fn lemma_lines_in_page(
    page: Seq<char>,
    blocks: Seq<Seq<char>>,
    sessions: Seq<SessionMetric>,
    at: int,
    name: Seq<char>,
    help: Seq<char>,
    shown: Shown,
)
    requires
        page == joined(blocks),
        0 <= at < blocks.len(),
        blocks[at] == session_block(name, help, sessions, shown),
    ensures
        text::contains_text(
            page,
            "# TYPE "@ + name + " "@ + "gauge"@ + "\n"@ + session_lines(
                name,
                sessions,
                shown,
            ),
        ),
{
    lemma_block_in_page(blocks, at);
    lemma_value_in_block(
        page,
        name,
        "gauge"@,
        help,
        session_lines(name, sessions, shown),
    );
}

/// The page of metrics has every count of a pool under its own name, and the lines of the
/// sessions for their memory, their share of CPU time and their processes.
pub proof fn law_pages_have_all_metrics(metrics: PoolMetrics)
    ensures
        text::contains_text(
            prometheus_page(metrics),
            "# TYPE "@ + "eiger_sessions_active"@ + " "@ + "gauge"@ + "\n"@ + "eiger_sessions_active"@ + " "@
                + text::decimal(metrics.active_sessions as nat) + "\n"@,
        ),
        text::contains_text(
            prometheus_page(metrics),
            "# TYPE "@ + "eiger_sessions_max"@ + " "@ + "gauge"@ + "\n"@ + "eiger_sessions_max"@ + " "@
                + text::decimal(metrics.max_concurrent_sessions as nat) + "\n"@,
        ),
        text::contains_text(
            prometheus_page(metrics),
            "# TYPE "@ + "eiger_sessions_created_total"@ + " "@ + "counter"@ + "\n"@ + "eiger_sessions_created_total"@ + " "@
                + text::decimal(metrics.sessions_created_total as nat) + "\n"@,
        ),
        text::contains_text(
            prometheus_page(metrics),
            "# TYPE "@ + "eiger_sessions_hard_killed_total"@ + " "@ + "counter"@ + "\n"@ + "eiger_sessions_hard_killed_total"@ + " "@
                + text::decimal(metrics.sessions_hard_killed_total as nat) + "\n"@,
        ),
        text::contains_text(
            prometheus_page(metrics),
            "# TYPE "@ + "eiger_sessions_rejected_total"@ + " "@ + "counter"@ + "\n"@ + "eiger_sessions_rejected_total"@ + " "@
                + text::decimal(metrics.sessions_rejected_total as nat) + "\n"@,
        ),
        text::contains_text(
            prometheus_page(metrics),
            "# TYPE "@ + "eiger_sessions_rss_limit_recycled_total"@ + " "@ + "counter"@ + "\n"@ + "eiger_sessions_rss_limit_recycled_total"@ + " "@
                + text::decimal(metrics.sessions_rss_limit_recycled_total as nat) + "\n"@,
        ),
        text::contains_text(
            prometheus_page(metrics),
            "# TYPE "@ + "eiger_sessions_idle_recycled_total"@ + " "@ + "counter"@ + "\n"@ + "eiger_sessions_idle_recycled_total"@ + " "@
                + text::decimal(metrics.sessions_idle_recycled_total as nat) + "\n"@,
        ),
        text::contains_text(
            prometheus_page(metrics),
            "# TYPE "@ + "eiger_sessions_lifetime_recycled_total"@ + " "@ + "counter"@ + "\n"@ + "eiger_sessions_lifetime_recycled_total"@ + " "@
                + text::decimal(metrics.sessions_lifetime_recycled_total as nat) + "\n"@,
        ),
        text::contains_text(
            prometheus_page(metrics),
            "# TYPE "@ + "eiger_sessions_process_exit_recycled_total"@ + " "@ + "counter"@ + "\n"@ + "eiger_sessions_process_exit_recycled_total"@ + " "@
                + text::decimal(metrics.sessions_process_exit_recycled_total as nat) + "\n"@,
        ),
        text::contains_text(
            prometheus_page(metrics),
            "# TYPE "@ + "eiger_sessions_cdp_unhealthy_recycled_total"@ + " "@ + "counter"@ + "\n"@ + "eiger_sessions_cdp_unhealthy_recycled_total"@ + " "@
                + text::decimal(metrics.sessions_cdp_unhealthy_recycled_total as nat) + "\n"@,
        ),
        text::contains_text(
            prometheus_page(metrics),
            "# TYPE "@ + "eiger_session_rss_bytes"@ + " "@ + "gauge"@ + "\n"@ + session_lines(
                "eiger_session_rss_bytes"@,
                metrics.sessions@,
                Shown::Rss,
            ),
        ),
        text::contains_text(
            prometheus_page(metrics),
            "# TYPE "@ + "eiger_session_cpu_percent"@ + " "@ + "gauge"@ + "\n"@ + session_lines(
                "eiger_session_cpu_percent"@,
                metrics.sessions@,
                Shown::Cpu,
            ),
        ),
        text::contains_text(
            prometheus_page(metrics),
            "# TYPE "@ + "eiger_session_processes"@ + " "@ + "gauge"@ + "\n"@ + session_lines(
                "eiger_session_processes"@,
                metrics.sessions@,
                Shown::Processes,
            ),
        ),
{
    let page = prometheus_page(metrics);
    let blocks = page_blocks(metrics);
    lemma_page_is_its_blocks(metrics);
    lemma_count_in_page(
        page,
        blocks,
        0,
        "eiger_sessions_active"@,
        "gauge"@,
        "Active browser sessions."@,
        metrics.active_sessions as nat,
    );
    lemma_count_in_page(
        page,
        blocks,
        1,
        "eiger_sessions_max"@,
        "gauge"@,
        "Maximum concurrently allowed browser sessions."@,
        metrics.max_concurrent_sessions as nat,
    );
    lemma_count_in_page(
        page,
        blocks,
        2,
        "eiger_sessions_created_total"@,
        "counter"@,
        "Browser sessions created."@,
        metrics.sessions_created_total as nat,
    );
    lemma_count_in_page(
        page,
        blocks,
        3,
        "eiger_sessions_hard_killed_total"@,
        "counter"@,
        "Browser sessions that required SIGKILL."@,
        metrics.sessions_hard_killed_total as nat,
    );
    lemma_count_in_page(
        page,
        blocks,
        4,
        "eiger_sessions_rejected_total"@,
        "counter"@,
        "Session requests rejected by capacity or timeout."@,
        metrics.sessions_rejected_total as nat,
    );
    lemma_count_in_page(
        page,
        blocks,
        5,
        "eiger_sessions_rss_limit_recycled_total"@,
        "counter"@,
        "Sessions recycled after exceeding their RSS ceiling."@,
        metrics.sessions_rss_limit_recycled_total as nat,
    );
    lemma_count_in_page(
        page,
        blocks,
        6,
        "eiger_sessions_idle_recycled_total"@,
        "counter"@,
        "Sessions recycled after idle timeout."@,
        metrics.sessions_idle_recycled_total as nat,
    );
    lemma_count_in_page(
        page,
        blocks,
        7,
        "eiger_sessions_lifetime_recycled_total"@,
        "counter"@,
        "Sessions recycled after max lifetime."@,
        metrics.sessions_lifetime_recycled_total as nat,
    );
    lemma_count_in_page(
        page,
        blocks,
        8,
        "eiger_sessions_process_exit_recycled_total"@,
        "counter"@,
        "Sessions recycled because their browser process exited."@,
        metrics.sessions_process_exit_recycled_total as nat,
    );
    lemma_count_in_page(
        page,
        blocks,
        9,
        "eiger_sessions_cdp_unhealthy_recycled_total"@,
        "counter"@,
        "Sessions recycled after CDP health-check failure."@,
        metrics.sessions_cdp_unhealthy_recycled_total as nat,
    );
    lemma_lines_in_page(page, blocks, metrics.sessions@, 10, "eiger_session_rss_bytes"@, "Browser process resident memory by session."@, Shown::Rss);
    lemma_lines_in_page(page, blocks, metrics.sessions@, 11, "eiger_session_cpu_percent"@, "Browser process CPU percent by session."@, Shown::Cpu);
    lemma_lines_in_page(page, blocks, metrics.sessions@, 12, "eiger_session_processes"@, "Browser process-tree process count by session."@, Shown::Processes);
}

proof fn lemma_joined_13(b: Seq<Seq<char>>)
    requires
        b.len() == 13,
    ensures
        joined(b) == b[0] + b[1] + b[2] + b[3] + b[4] + b[5] + b[6] + b[7] + b[8] + b[9] + b[10]
            + b[11] + b[12],
{
    reveal_with_fuel(joined, 14);
    assert(b.take(13) =~= b);
    assert(b.take(13).drop_last() =~= b.take(12));
    assert(b.take(12).drop_last() =~= b.take(11));
    assert(b.take(11).drop_last() =~= b.take(10));
    assert(b.take(10).drop_last() =~= b.take(9));
    assert(b.take(9).drop_last() =~= b.take(8));
    assert(b.take(8).drop_last() =~= b.take(7));
    assert(b.take(7).drop_last() =~= b.take(6));
    assert(b.take(6).drop_last() =~= b.take(5));
    assert(b.take(5).drop_last() =~= b.take(4));
    assert(b.take(4).drop_last() =~= b.take(3));
    assert(b.take(3).drop_last() =~= b.take(2));
    assert(b.take(2).drop_last() =~= b.take(1));
    assert(b.take(1).drop_last() =~= b.take(0));
    assert(joined(b.take(0)) =~= Seq::<char>::empty());
    assert(joined(b.take(1)) =~= b[0]);
}

/// A share may have a power of ten, and may be one of the words for what is no finite
/// number, in any case.
pub proof fn law_shares_can_be_far_off(whole: Seq<char>, power: Seq<char>, word: Seq<char>)
    requires
        text::all_digits(whole),
        text::all_digits(power),
        whole.len() > 0,
        power.len() > 0,
    ensures
        spells_float(whole + "e"@ + power),
        spells_float(whole + "e"@ + ("-"@ + power)),
        !spells_float(whole + "e"@),
        text::lower(word) == "inf"@ || text::lower(word) == "infinity"@ || text::lower(word)
            == "nan"@ ==> spells_float(word),
{
    reveal_strlit("e");
    reveal_strlit("-");
    reveal_strlit("inf");
    reveal_strlit("infinity");
    reveal_strlit("nan");
    lemma_digits_are_plain(whole);
    lemma_digits_are_plain(power);
    lemma_powers_are_cut(whole, power);
    lemma_powers_are_cut(whole, "-"@ + power);
    lemma_powers_are_cut(whole, Seq::empty());
    assert(without_sign("-"@ + power) =~= power);
    assert(whole + "e"@ + Seq::<char>::empty() =~= whole + "e"@);
    assert("inf"@[0] == 'i' && "infinity"@[0] == 'i' && "nan"@[0] == 'n');
    assert((whole + "e"@)[0] == whole[0]);
    assert(text::is_digit(whole[0]));
}

proof fn lemma_powers_are_cut(whole: Seq<char>, power: Seq<char>)
    requires
        text::all_digits(whole),
        whole.len() > 0,
        forall|i: int|
            0 <= i < power.len() ==> text::is_digit(#[trigger] power[i]) || power[i] == '-',
    ensures
        without_sign(text::lower(whole + "e"@ + power)) == whole + "e"@ + power,
        text::cut_at(whole + "e"@ + power, "e"@) == Some((whole, power)),
{
    reveal_strlit("e");
    let number = whole + "e"@ + power;
    assert forall|i: int| 0 <= i < number.len() implies text::is_digit(#[trigger] number[i])
        || number[i] == 'e' || number[i] == '-' by {
        if i < whole.len() {
            assert(text::is_digit(whole[i]));
        } else if i > whole.len() {
            assert(number[i] == power[i - whole.len() - 1]);
        }
    }
    assert(text::lower(number) =~= number);
    assert(number[0] == whole[0]);
    assert(text::is_digit(whole[0]));
    assert forall|at: int| 0 <= at < whole.len() implies !#[trigger] text::occurs_at(
        number,
        "e"@,
        at,
    ) by {
        if text::occurs_at(number, "e"@, at) {
            assert(number.subrange(at, at + 1)[0] == number[at]);
            assert(text::is_digit(whole[at]));
        }
    }
    text::law_texts_are_cut(whole, "e"@, power, whole);
}

/// A table with a size that does not fit into 64 bits in bytes cannot be sampled.
pub proof fn law_huge_sizes_are_told(rows: Seq<RowView>, root: int, i: int)
    requires
        0 <= i < rows.len(),
        rows[i].rss_kb * 1024 > u64::MAX,
    ensures
        tree_sample(rows, root) is Err,
{
}

/// Two signs of a label are marked, and all others stand as they are, one after the other.
pub proof fn law_labels_are_escaped(left: Seq<char>, right: Seq<char>, c: char)
    ensures
        label_text(left + right) == label_text(left) + label_text(right),
        label_text(Seq::empty()).len() == 0,
        label_text(seq!['"']) == seq!['\\', '"'],
        label_text(seq!['\\']) == seq!['\\', '\\'],
        c != '"' && c != '\\' ==> label_text(seq![c]) == seq![c],
    decreases right.len(),
{
    lemma_one_label('"');
    lemma_one_label('\\');
    lemma_one_label(c);
    if right.len() == 0 {
        assert(left + right =~= left);
        assert(label_text(left + right) =~= label_text(left) + label_text(right));
    } else {
        law_labels_are_escaped(left, right.drop_last(), c);
        assert((left + right).drop_last() =~= left + right.drop_last());
        assert(label_text(left + right) =~= label_text(left) + label_text(right));
    }
}

proof fn lemma_one_label(c: char)
    ensures
        label_text(seq![c]) == label_char(c),
{
    assert(seq![c].drop_last() =~= Seq::<char>::empty());
    assert(label_text(seq![c].drop_last()) =~= Seq::<char>::empty());
    assert(label_text(seq![c]) =~= label_char(c));
}

}
