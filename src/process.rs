use vstd::prelude::*;

use crate::number::{parse_u32, parse_u32_spec};
use crate::text::{
    chars_of, contains, contains_chars, slice_chars, split_on, split_spans, starts_with,
    starts_with_chars, substring, token_spans, tokens,
};

verus! {

/// One entry of the process table, as read from the kernel. A text is `None` where
/// it could not be read (the process exited, or access was denied).
pub struct ProcessRecord {
    pub pid: u32,
    /// The `stat` line: pid, command name in parentheses, state, parent pid, ...
    pub stat: Option<String>,
    /// The `status` report, one `Key: value` per line.
    pub status: Option<String>,
    /// The command line, arguments separated by NUL characters.
    pub cmdline: Option<String>,
}

/// The index of the last `c` in `s`, or -1.
pub open spec fn last_index_of(s: Seq<char>, c: char) -> int
    decreases s.len(),
{
    if s.len() == 0 {
        -1
    } else if s.last() == c {
        s.len() - 1
    } else {
        last_index_of(s.drop_last(), c)
    }
}

/// The parent pid in a `stat` line: the second field after the character that
/// follows the last `)`.
pub open spec fn parent_of_stat(s: Seq<char>) -> Option<u32> {
    let k = last_index_of(s, ')');
    if k < 0 || k + 2 > s.len() {
        None
    } else {
        let t = tokens(s.skip(k + 2));
        if t.len() > 1 {
            parse_u32_spec(t[1])
        } else {
            None
        }
    }
}

/// The real user id on the first `Uid:` line among `lines`.
pub open spec fn uid_in_lines(lines: Seq<Seq<char>>) -> Option<Seq<char>>
    decreases lines.len(),
{
    if lines.len() == 0 {
        None
    } else if starts_with(lines[0], "Uid:"@) {
        let t = tokens(lines[0]);
        if t.len() > 1 {
            Some(t[1])
        } else {
            None
        }
    } else {
        uid_in_lines(lines.drop_first())
    }
}

/// The real user id on the first `Uid:` line among `lines` that has a value.
pub open spec fn first_uid_value_in_lines(lines: Seq<Seq<char>>) -> Option<Seq<char>>
    decreases lines.len(),
{
    if lines.len() == 0 {
        None
    } else if starts_with(lines[0], "Uid:"@) && tokens(lines[0]).len() > 1 {
        Some(tokens(lines[0])[1])
    } else {
        first_uid_value_in_lines(lines.drop_first())
    }
}

/// The caller's own user id in its `status` report: a `Uid:` line without a value
/// is passed over.
pub open spec fn caller_uid_of_status(s: Seq<char>) -> Option<Seq<char>> {
    first_uid_value_in_lines(split_on(s, '\n'))
}

/// The real user id in a `status` report.
pub open spec fn uid_of_status(s: Seq<char>) -> Option<Seq<char>> {
    uid_in_lines(split_on(s, '\n'))
}

/// A command line with its NUL separators turned into spaces.
pub open spec fn spaced(s: Seq<char>) -> Seq<char> {
    s.map_values(|c: char| if c == '\0' { ' ' } else { c })
}

/// The `stat` text of the first record of `pid` in `table`.
pub open spec fn stat_in(table: Seq<ProcessRecord>, pid: u32) -> Option<String>
    decreases table.len(),
{
    if table.len() == 0 {
        None
    } else if table[0].pid == pid {
        table[0].stat
    } else {
        stat_in(table.drop_first(), pid)
    }
}

/// The parent of `pid` according to `table`, if its `stat` can be read and parsed.
pub open spec fn parent_in(table: Seq<ProcessRecord>, pid: u32) -> Option<u32> {
    match stat_in(table, pid) {
        Some(st) => parent_of_stat(st@),
        None => None,
    }
}

/// `pid` and its ancestors, following parent links until pid 0, a process without
/// a known parent, or `fuel` links.
pub open spec fn ancestor_chain(table: Seq<ProcessRecord>, pid: u32, fuel: nat) -> Seq<u32>
    decreases fuel,
{
    if fuel == 0 || pid == 0 {
        seq![]
    } else {
        seq![pid] + match parent_in(table, pid) {
            Some(p) => ancestor_chain(table, p, (fuel - 1) as nat),
            None => seq![],
        }
    }
}

/// The ancestor set of `pid`; no chain of distinct processes is longer than the
/// table plus one.
pub open spec fn ancestors_spec(table: Seq<ProcessRecord>, pid: u32) -> Seq<u32> {
    ancestor_chain(table, pid, table.len() + 1)
}

pub open spec fn owner_matches(rec: ProcessRecord, user: Option<Seq<char>>) -> bool {
    match user {
        None => true,
        Some(u) => match rec.status {
            Some(st) => uid_of_status(st@) == Some(u),
            None => false,
        },
    }
}

pub open spec fn command_matches(rec: ProcessRecord, fragment: Seq<char>) -> bool {
    match rec.cmdline {
        Some(cl) => contains(spaced(cl@), fragment),
        None => false,
    }
}

/// `rec` is a process other than the caller and its ancestors, owned by `user` if
/// one is given, whose command line holds `fragment`.
pub open spec fn is_match(
    rec: ProcessRecord,
    ancestors: Seq<u32>,
    fragment: Seq<char>,
    user: Option<Seq<char>>,
) -> bool {
    &&& !ancestors.contains(rec.pid)
    &&& owner_matches(rec, user)
    &&& command_matches(rec, fragment)
}

pub open spec fn opt_view(o: Option<&str>) -> Option<Seq<char>> {
    match o {
        Some(s) => Some(s@),
        None => None,
    }
}

proof fn lemma_last_index_bounds(s: Seq<char>, c: char)
    ensures
        -1 <= last_index_of(s, c) < s.len(),
        last_index_of(s, c) >= 0 ==> s[last_index_of(s, c)] == c,
    decreases s.len(),
{
    if s.len() > 0 && s.last() != c {
        lemma_last_index_bounds(s.drop_last(), c);
    }
}

/// The parent pid recorded in a `stat` line.
pub fn parent_pid_from_stat(stat: &str) -> (r: Option<u32>)
    ensures
        r == parent_of_stat(stat@),
{
    let cs = chars_of(stat);
    let n = cs.len();
    let mut k = n;
    assert(cs@.take(n as int) =~= cs@);
    while k > 0 && cs[k - 1] != ')'
        invariant
            k <= n == cs.len(),
            last_index_of(cs@, ')') == last_index_of(cs@.take(k as int), ')'),
        decreases k,
    {
        assert(cs@.take(k as int).drop_last() =~= cs@.take(k - 1));
        k = k - 1;
    }
    proof {
        if k > 0 {
            assert(cs@.take(k as int).last() == ')');
        }
    }
    if k == 0 || k >= n {
        assert(cs@.take(0) =~= Seq::<char>::empty());
        return None;
    }
    let after = slice_chars(&cs, k + 1, n);
    assert(after@ =~= cs@.skip(k + 1));
    let spans = token_spans(&after);
    if spans.len() < 2 {
        return None;
    }
    let (lo, hi) = spans[1];
    parse_u32(&after, lo, hi)
}

/// The real user id in a `status` report: the second field of its first `Uid:`
/// line.
pub fn uid_from_status(status: &str) -> (r: Option<String>)
    ensures
        match r {
            Some(u) => uid_of_status(status@) == Some(u@),
            None => uid_of_status(status@) is None,
        },
{
    let cs = chars_of(status);
    let spans = split_spans(&cs, '\n');
    let ghost lines = split_on(cs@, '\n');
    let key = chars_of("Uid:");
    let mut k: usize = 0;
    assert(lines.skip(0) =~= lines);
    while k < spans.len()
        invariant
            cs@ == status@,
            key@ == "Uid:"@,
            lines == split_on(cs@, '\n'),
            spans@.len() == lines.len(),
            forall|q: int| #![trigger spans[q]] 0 <= q < spans.len() ==> spans[q].0 <= spans[q].1 <= cs.len(),
            forall|q: int|
                0 <= q < spans.len() ==> #[trigger] cs@.subrange(spans[q].0 as int, spans[q].1 as int)
                    == lines[q],
            k <= spans.len(),
            uid_of_status(status@) == uid_in_lines(lines.skip(k as int)),
        decreases spans.len() - k,
    {
        let (lo, hi) = spans[k];
        let line = slice_chars(&cs, lo, hi);
        assert(line@ == lines[k as int]);
        assert(lines.skip(k as int)[0] == lines[k as int]);
        if starts_with_chars(&line, &key) {
            let fields = token_spans(&line);
            if fields.len() > 1 {
                let (a, b) = fields[1];
                let s = substring(status, lo + a, lo + b);
                assert(s@ =~= line@.subrange(a as int, b as int));
                return Some(s);
            }
            return None;
        }
        assert(lines.skip(k as int).drop_first() =~= lines.skip(k + 1));
        k = k + 1;
    }
    None
}

/// The caller's user id in its own `status` report: the second field of the first
/// `Uid:` line that has one.
pub fn caller_uid_from_status(status: &str) -> (r: Option<String>)
    ensures
        match r {
            Some(u) => caller_uid_of_status(status@) == Some(u@),
            None => caller_uid_of_status(status@) is None,
        },
{
    let cs = chars_of(status);
    let spans = split_spans(&cs, '\n');
    let ghost lines = split_on(cs@, '\n');
    let key = chars_of("Uid:");
    let mut k: usize = 0;
    assert(lines.skip(0) =~= lines);
    while k < spans.len()
        invariant
            cs@ == status@,
            key@ == "Uid:"@,
            lines == split_on(cs@, '\n'),
            spans@.len() == lines.len(),
            forall|q: int| #![trigger spans[q]] 0 <= q < spans.len() ==> spans[q].0 <= spans[q].1 <= cs.len(),
            forall|q: int|
                0 <= q < spans.len() ==> #[trigger] cs@.subrange(spans[q].0 as int, spans[q].1 as int)
                    == lines[q],
            k <= spans.len(),
            caller_uid_of_status(status@) == first_uid_value_in_lines(lines.skip(k as int)),
        decreases spans.len() - k,
    {
        let (lo, hi) = spans[k];
        let line = slice_chars(&cs, lo, hi);
        assert(line@ == lines[k as int]);
        assert(lines.skip(k as int)[0] == lines[k as int]);
        if starts_with_chars(&line, &key) {
            let fields = token_spans(&line);
            if fields.len() > 1 {
                let (a, b) = fields[1];
                let s = substring(status, lo + a, lo + b);
                assert(s@ =~= line@.subrange(a as int, b as int));
                return Some(s);
            }
        }
        assert(lines.skip(k as int).drop_first() =~= lines.skip(k + 1));
        k = k + 1;
    }
    None
}

/// Whether the command line `cmdline`, with NULs read as spaces, holds `fragment`.
pub fn cmdline_matches(cmdline: &str, fragment: &str) -> (r: bool)
    ensures
        r == contains(spaced(cmdline@), fragment@),
{
    let cs = chars_of(cmdline);
    let mut sp: Vec<char> = Vec::new();
    let mut k: usize = 0;
    while k < cs.len()
        invariant
            k <= cs.len(),
            sp@ == spaced(cs@.take(k as int)),
        decreases cs.len() - k,
    {
        let c = cs[k];
        if c == '\0' {
            sp.push(' ');
        } else {
            sp.push(c);
        }
        k = k + 1;
        assert(sp@ =~= spaced(cs@.take(k as int)));
    }
    assert(cs@.take(k as int) =~= cs@);
    let part = chars_of(fragment);
    contains_chars(&sp, &part)
}

/// The parent of `pid` according to `table`.
pub fn parent_of(table: &Vec<ProcessRecord>, pid: u32) -> (r: Option<u32>)
    ensures
        r == parent_in(table@, pid),
{
    let mut i: usize = 0;
    assert(table@.skip(0) =~= table@);
    while i < table.len()
        invariant
            i <= table.len(),
            stat_in(table@, pid) == stat_in(table@.skip(i as int), pid),
        decreases table.len() - i,
    {
        assert(table@.skip(i as int)[0] == table@[i as int]);
        if table[i].pid == pid {
            return match &table[i].stat {
                Some(st) => parent_pid_from_stat(st.as_str()),
                None => None,
            };
        }
        assert(table@.skip(i as int).drop_first() =~= table@.skip(i + 1));
        i = i + 1;
    }
    None
}

/// The caller `self_pid` and its ancestors up to pid 0, as `table` records them.
pub fn get_ancestors(self_pid: u32, table: &Vec<ProcessRecord>) -> (r: Vec<u32>)
    requires
        table.len() < usize::MAX,
    ensures
        r@ == ancestors_spec(table@, self_pid),
{
    let mut r: Vec<u32> = Vec::new();
    let mut current = self_pid;
    let mut fuel: usize = table.len() + 1;
    let mut done = false;
    while !done && fuel > 0 && current != 0
        invariant
            ancestors_spec(table@, self_pid) == r@ + (if done {
                seq![]
            } else {
                ancestor_chain(table@, current, fuel as nat)
            }),
        decreases fuel,
    {
        r.push(current);
        match parent_of(table, current) {
            Some(p) => {
                assert(ancestor_chain(table@, current, fuel as nat) == seq![current]
                    + ancestor_chain(table@, p, (fuel - 1) as nat));
                current = p;
                fuel = fuel - 1;
            },
            None => {
                done = true;
                fuel = fuel - 1;
            },
        }
        assert(ancestors_spec(table@, self_pid) =~= r@ + (if done {
            seq![]
        } else {
            ancestor_chain(table@, current, fuel as nat)
        }));
    }
    assert(ancestors_spec(table@, self_pid) =~= r@);
    r
}

/// Whether `a` and `b` hold the same characters.
pub fn same_text(a: &str, b: &str) -> (r: bool)
    ensures
        r == (a@ == b@),
{
    let x = chars_of(a);
    let y = chars_of(b);
    if x.len() != y.len() {
        return false;
    }
    let r = starts_with_chars(&x, &y);
    assert(r ==> x@ =~= y@);
    assert(x@ == y@ ==> x@.take(y@.len() as int) =~= y@);
    r
}

/// Whether `rec` passes the owner filter `user`.
pub fn owner_allows(rec: &ProcessRecord, user: Option<&str>) -> (r: bool)
    ensures
        r == owner_matches(*rec, opt_view(user)),
{
    match user {
        None => true,
        Some(u) => match &rec.status {
            Some(st) => match uid_from_status(st.as_str()) {
                Some(uid) => same_text(uid.as_str(), u),
                None => false,
            },
            None => false,
        },
    }
}

/// Whether `table` holds a process other than `self_pid` and its ancestors, owned by
/// `user_filter` if one is given, whose command line holds `process`.
pub fn is_process_running(
    table: &Vec<ProcessRecord>,
    self_pid: u32,
    process: &str,
    user_filter: Option<&str>,
) -> (r: bool)
    requires
        table.len() < usize::MAX,
    ensures
        r == exists|i: int|
            0 <= i < table.len() && is_match(
                #[trigger] table@[i],
                ancestors_spec(table@, self_pid),
                process@,
                opt_view(user_filter),
            ),
{
    let ancestors = get_ancestors(self_pid, table);
    let ghost anc = ancestors_spec(table@, self_pid);
    let mut i: usize = 0;
    while i < table.len()
        invariant
            i <= table.len(),
            ancestors@ == anc,
            anc == ancestors_spec(table@, self_pid),
            forall|j: int|
                0 <= j < i ==> !is_match(#[trigger] table@[j], anc, process@, opt_view(user_filter)),
        decreases table.len() - i,
    {
        let rec = &table[i];
        let mut skip = false;
        let mut a: usize = 0;
        while a < ancestors.len()
            invariant
                a <= ancestors.len(),
                skip == (exists|q: int| 0 <= q < a && ancestors@[q] == rec.pid),
            decreases ancestors.len() - a,
        {
            if ancestors[a] == rec.pid {
                skip = true;
            }
            a = a + 1;
        }
        assert(skip == ancestors@.contains(rec.pid));
        let owner_ok = owner_allows(rec, user_filter);
        let cmd_ok = match &rec.cmdline {
            Some(cl) => cmdline_matches(cl.as_str(), process),
            None => false,
        };
        if !skip && owner_ok && cmd_ok {
            assert(is_match(table@[i as int], anc, process@, opt_view(user_filter)));
            return true;
        }
        assert(!is_match(table@[i as int], anc, process@, opt_view(user_filter)));
        i = i + 1;
    }
    false
}

} // verus!

verus! {

/// Neither the caller nor its parent is ever reported as a running match, whatever
/// their command lines hold. Pid 0 is no process (the kernel never hands it out), so
/// both pids are nonzero.
pub proof fn lemma_caller_and_parent_excluded(
    table: Seq<ProcessRecord>,
    self_pid: u32,
    parent: u32,
    fragment: Seq<char>,
    user: Option<Seq<char>>,
    i: int,
)
    requires
        self_pid != 0,
        parent != 0,
        parent_in(table, self_pid) == Some(parent),
        0 <= i < table.len(),
        table[i].pid == self_pid || table[i].pid == parent,
    ensures
        !is_match(table[i], ancestors_spec(table, self_pid), fragment, user),
{
    let n = table.len();
    let chain = ancestors_spec(table, self_pid);
    let rest = ancestor_chain(table, parent, n);
    assert(chain == seq![self_pid] + rest);
    assert(rest == seq![parent] + match parent_in(table, parent) {
        Some(p) => ancestor_chain(table, p, (n - 1) as nat),
        None => seq![],
    });
    assert(chain[0] == self_pid);
    assert(chain[1] == parent);
}

} // verus!
