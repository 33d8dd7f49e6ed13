//! Reading what `/proc` says about a managed process: the sockets it holds,
//! the ports it listens on, and when it started. The files are read by the
//! caller; their text is parsed here.

use vstd::prelude::*;
use crate::daemon::views::ObservedListener;
use crate::parse::{parse_hex_u16, parse_hex_u16_spec, parse_u64_spec, parse_u64_str};
use crate::text::{
    chars_of, decimal, owned, split_by_char, split_char, split_lines, split_whitespace,
    string_from_chars, str_eq, text_lines, trim, trim_str, u64_to_string, views, words,
};

verus! {

/// The inode of a socket from the target of a `/proc/<pid>/fd` link,
/// `socket:[<inode>]`.
pub open spec fn socket_inode_spec(target: Seq<char>) -> Option<u64> {
    let prefix = "socket:["@;
    if prefix.is_prefix_of(target) && target.len() > prefix.len() && target.last() == ']' {
        parse_u64_spec(target.subrange(prefix.len() as int, target.len() - 1))
    } else {
        None
    }
}

pub fn socket_inode(target: &str) -> (r: Option<u64>)
    ensures
        r == socket_inode_spec(target@),
{
    let v = chars_of(target);
    let p = chars_of("socket:[");
    let n = v.len();
    if n <= p.len() || v[n - 1] != ']' || !crate::text::starts_with(target, "socket:[") {
        return None;
    }
    let inner = string_from_chars(v.as_slice(), p.len(), n - 1);
    parse_u64_str(inner.as_str())
}

/// A listening row of `/proc/net/tcp` or `tcp6` for one of the given
/// sockets: more than nine columns, state `0A` (listen), the inode in the
/// tenth column, and the local port in hex after the `:` of the second.
pub open spec fn listener_of_row(row: Seq<char>, inodes: Seq<u64>) -> Option<u16> {
    let cols = words(row);
    if cols.len() <= 9 || cols[3] != "0A"@ {
        None
    } else {
        match parse_u64_spec(cols[9]) {
            None => None,
            Some(inode) => if !inodes.contains(inode) {
                None
            } else {
                let parts = split_char(cols[1], ':');
                if parts.len() < 2 {
                    None
                } else {
                    parse_hex_u16_spec(parts[1])
                }
            },
        }
    }
}

/// The ports listened on, by row, skipping the header line.
pub open spec fn listener_ports(rows: Seq<Seq<char>>, inodes: Seq<u64>) -> Seq<u16>
    decreases rows.len(),
{
    if rows.len() <= 1 {
        seq![]
    } else {
        let prev = listener_ports(rows.drop_last(), inodes);
        match listener_of_row(rows.last(), inodes) {
            Some(p) => prev.push(p),
            None => prev,
        }
    }
}

pub open spec fn listener_ok(l: ObservedListener, protocol: Seq<char>, port: u16) -> bool {
    l.port == port && l.protocol@ == protocol && l.port_id@ == protocol + ":"@ + decimal(port as nat)
}

fn contains_inode(inodes: &Vec<u64>, inode: u64) -> (r: bool)
    ensures
        r == inodes@.contains(inode),
{
    let mut i: usize = 0;
    while i < inodes.len()
        invariant
            i <= inodes@.len(),
            forall|k: int| 0 <= k < i ==> inodes@[k] != inode,
        decreases inodes.len() - i,
    {
        if inodes[i] == inode {
            assert(inodes@[i as int] == inode);
            return true;
        }
        i = i + 1;
    }
    false
}

fn row_listener(row: &str, inodes: &Vec<u64>) -> (r: Option<u16>)
    ensures
        r == listener_of_row(row@, inodes@),
{
    let cols = split_whitespace(row);
    if cols.len() <= 9 || !str_eq(cols[3].as_str(), "0A") {
        return None;
    }
    let inode = match parse_u64_str(cols[9].as_str()) {
        Some(i) => i,
        None => return None,
    };
    if !contains_inode(inodes, inode) {
        return None;
    }
    let parts = split_by_char(cols[1].as_str(), ':');
    if parts.len() < 2 {
        return None;
    }
    parse_hex_u16(parts[1].as_str())
}

pub fn listener_for(protocol: &str, port: u16) -> (r: ObservedListener)
    ensures
        listener_ok(r, protocol@, port),
{
    let mut port_id = owned(protocol);
    port_id.append(":");
    port_id.append(u64_to_string(port as u64).as_str());
    ObservedListener { port_id, port, protocol: owned(protocol) }
}

/// The listeners that a socket table shows for the given sockets.
pub fn listener_rows(contents: &str, inodes: &Vec<u64>, protocol: &str) -> (r: Vec<ObservedListener>)
    ensures
        r@.len() == listener_ports(text_lines(contents@), inodes@).len(),
        forall|i: int|
            0 <= i < r@.len() ==> listener_ok(
                #[trigger] r@[i],
                protocol@,
                listener_ports(text_lines(contents@), inodes@)[i],
            ),
{
    let lines = split_lines(contents);
    let ghost rows = views(lines@);
    let mut listeners: Vec<ObservedListener> = Vec::new();
    let mut i: usize = 1;
    if lines.len() == 0 {
        return listeners;
    }
    while i < lines.len()
        invariant
            rows == views(lines@),
            rows == text_lines(contents@),
            1 <= i <= lines@.len(),
            listeners@.len() == listener_ports(rows.take(i as int), inodes@).len(),
            forall|k: int|
                0 <= k < listeners@.len() ==> listener_ok(
                    #[trigger] listeners@[k],
                    protocol@,
                    listener_ports(rows.take(i as int), inodes@)[k],
                ),
        decreases lines.len() - i,
    {
        assert(rows.take(i + 1).drop_last() =~= rows.take(i as int));
        assert(rows.take(i + 1).last() == lines@[i as int]@);
        match row_listener(lines[i].as_str(), inodes) {
            Some(port) => {
                listeners.push(listener_for(protocol, port));
            },
            None => {},
        }
        i = i + 1;
    }
    assert(rows.take(lines@.len() as int) =~= rows);
    listeners
}

/// Listeners by port, lowest first; listeners on equal ports keep their
/// order (a stable sort).
pub open spec fn insert_by_port(s: Seq<ObservedListener>, x: ObservedListener) -> Seq<ObservedListener>
    decreases s.len(),
{
    if s.len() == 0 {
        seq![x]
    } else if s[0].port <= x.port {
        seq![s[0]] + insert_by_port(s.drop_first(), x)
    } else {
        seq![x] + s
    }
}

pub open spec fn sort_by_port(s: Seq<ObservedListener>) -> Seq<ObservedListener>
    decreases s.len(),
{
    if s.len() == 0 {
        seq![]
    } else {
        insert_by_port(sort_by_port(s.drop_last()), s.last())
    }
}

/// A listener is dropped where the one kept before it has the same port id.
pub open spec fn dedup_port_ids(s: Seq<ObservedListener>) -> Seq<ObservedListener>
    decreases s.len(),
{
    if s.len() == 0 {
        seq![]
    } else {
        let prev = dedup_port_ids(s.drop_last());
        if prev.len() > 0 && prev.last().port_id@ == s.last().port_id@ {
            prev
        } else {
            prev.push(s.last())
        }
    }
}

proof fn lemma_insert_by_port(s: Seq<ObservedListener>, x: ObservedListener, p: int)
    requires
        0 <= p <= s.len(),
        forall|k: int| 0 <= k < p ==> #[trigger] s[k].port <= x.port,
        p < s.len() ==> s[p].port > x.port,
    ensures
        insert_by_port(s, x) == s.insert(p, x),
    decreases s.len(),
{
    if s.len() == 0 {
        assert(s.insert(p, x) =~= seq![x]);
    } else if s[0].port <= x.port {
        assert(p >= 1);
        let t = s.drop_first();
        assert forall|k: int| 0 <= k < p - 1 implies #[trigger] t[k].port <= x.port by {
            assert(t[k] == s[k + 1]);
        }
        if p - 1 < t.len() {
            assert(t[p - 1] == s[p]);
        }
        lemma_insert_by_port(t, x, p - 1);
        assert(seq![s[0]] + t.insert(p - 1, x) =~= s.insert(p, x));
    } else {
        assert(p == 0) by {
            if p > 0 {
                assert(s[0].port <= x.port);
            }
        }
        assert(seq![x] + s =~= s.insert(0, x));
    }
}

fn copy_listener(l: &ObservedListener) -> (r: ObservedListener)
    ensures
        r == *l,
{
    ObservedListener { port_id: l.port_id.clone(), port: l.port, protocol: l.protocol.clone() }
}

/// The listeners of a process from both socket tables: sorted by port, with
/// a listener seen in both kept once.
pub fn merge_listeners(tcp: Vec<ObservedListener>, tcp6: Vec<ObservedListener>) -> (r: Vec<
    ObservedListener,
>)
    ensures
        r@ == dedup_port_ids(sort_by_port(tcp@ + tcp6@)),
{
    let ghost all = tcp@ + tcp6@;
    let mut input = tcp;
    let mut more = tcp6;
    input.append(&mut more);
    assert(input@ == all);
    let mut sorted: Vec<ObservedListener> = Vec::new();
    let mut i: usize = 0;
    while i < input.len()
        invariant
            input@ == all,
            i <= input@.len(),
            sorted@ == sort_by_port(all.take(i as int)),
        decreases input.len() - i,
    {
        assert(all.take(i + 1).drop_last() =~= all.take(i as int));
        let x = copy_listener(&input[i]);
        let mut p: usize = 0;
        while p < sorted.len() && sorted[p].port <= x.port
            invariant
                p <= sorted@.len(),
                forall|k: int| 0 <= k < p ==> #[trigger] sorted@[k].port <= x.port,
            decreases sorted.len() - p,
        {
            p = p + 1;
        }
        proof {
            lemma_insert_by_port(sorted@, x, p as int);
        }
        sorted.insert(p, x);
        i = i + 1;
    }
    assert(all.take(input@.len() as int) =~= all);
    let ghost ordered = sorted@;
    let mut kept: Vec<ObservedListener> = Vec::new();
    let mut k: usize = 0;
    while k < sorted.len()
        invariant
            sorted@ == ordered,
            k <= ordered.len(),
            kept@ == dedup_port_ids(ordered.take(k as int)),
        decreases sorted.len() - k,
    {
        assert(ordered.take(k + 1).drop_last() =~= ordered.take(k as int));
        let n = kept.len();
        let same = n > 0 && str_eq(kept[n - 1].port_id.as_str(), sorted[k].port_id.as_str());
        if !same {
            kept.push(copy_listener(&sorted[k]));
        }
        k = k + 1;
    }
    assert(ordered.take(ordered.len() as int) =~= ordered);
    kept
}

/// The text after the last `)` of `/proc/<pid>/stat` (the command may hold
/// parentheses), without its first character, trimmed.
pub open spec fn last_paren(s: Seq<char>) -> Option<int> {
    if exists|i: int| 0 <= i < s.len() && s[i] == ')' {
        Some(choose|i: int| 0 <= i < s.len() && s[i] == ')' && forall|j: int| i < j < s.len() ==> s[j] != ')')
    } else {
        None
    }
}

pub open spec fn parse_error_text(field: Seq<char>) -> Seq<char> {
    let b = if field.len() > 0 && field[0] == '+' { field.drop_first() } else { field };
    if b.len() == 0 || !crate::parse::all_digits(b) {
        "invalid digit found in string"@
    } else {
        "number too large to fit in target type"@
    }
}

/// The start time of a process in clock ticks after boot: the twentieth
/// field after the command in `/proc/<pid>/stat`.
pub open spec fn start_time_spec(stat: Seq<char>) -> Result<u64, Seq<char>> {
    match last_paren(stat) {
        None => Err("failed to parse /proc stat command boundary"@),
        Some(e) => {
            let fields = words(trim(stat.skip(e + 2)));
            if fields.len() <= 19 {
                Err("missing /proc stat start time field"@)
            } else {
                match parse_u64_spec(fields[19]) {
                    Some(t) => Ok(t),
                    None => Err(parse_error_text(fields[19])),
                }
            }
        },
    }
}

/// `stat` is what the kernel writes: after the last `)` come a space and
/// the fields.
pub open spec fn stat_well_formed(stat: Seq<char>) -> bool {
    last_paren(stat) matches Some(e) ==> e + 2 <= stat.len()
}

pub fn start_time_from_stat(stat: &str) -> (r: Result<u64, String>)
    requires
        stat_well_formed(stat@),
    ensures
        match (r, start_time_spec(stat@)) {
            (Ok(a), Ok(b)) => a == b,
            (Err(a), Err(b)) => a@ == b,
            _ => false,
        },
{
    let v = chars_of(stat);
    let mut i: usize = v.len();
    while i > 0 && v[i - 1] != ')'
        invariant
            v@ == stat@,
            i <= v@.len(),
            forall|j: int| i <= j < v@.len() ==> v@[j] != ')',
        decreases i,
    {
        i = i - 1;
    }
    if i == 0 {
        assert(last_paren(stat@) is None);
        return Err(owned("failed to parse /proc stat command boundary"));
    }
    let e = i - 1;
    assert(last_paren(stat@) == Some(e as int)) by {
        let c = choose|k: int| 0 <= k < stat@.len() && stat@[k] == ')' && forall|j: int| k < j < stat@.len() ==> stat@[j] != ')';
        assert(stat@[e as int] == ')');
        if c < e {
        } else if c > e {
        }
    }
    let rest = string_from_chars(v.as_slice(), e + 2, v.len());
    assert(v@.subrange(e + 2, v@.len() as int) =~= stat@.skip(e + 2));
    let remainder = trim_str(rest.as_str());
    let fields = split_whitespace(remainder.as_str());
    if fields.len() <= 19 {
        return Err(owned("missing /proc stat start time field"));
    }
    match parse_u64_str(fields[19].as_str()) {
        Some(t) => Ok(t),
        None => {
            let f = chars_of(fields[19].as_str());
            let start: usize = if f.len() > 0 && f[0] == '+' { 1 } else { 0 };
            let mut all = true;
            let mut k: usize = start;
            while k < f.len()
                invariant
                    start <= k <= f@.len(),
                    all == forall|j: int| start <= j < k ==> crate::parse::is_digit(f@[j]),
                decreases f.len() - k,
            {
                if !('0' <= f[k] && f[k] <= '9') {
                    all = false;
                }
                k = k + 1;
            }
            let ghost b = if f@.len() > 0 && f@[0] == '+' { f@.drop_first() } else { f@ };
            assert(b =~= f@.subrange(start as int, f@.len() as int));
            assert(all == crate::parse::all_digits(b)) by {
                if all {
                    assert forall|j: int| 0 <= j < b.len() implies crate::parse::is_digit(b[j]) by {
                        assert(b[j] == f@[j + start]);
                    }
                } else {
                    let j = choose|j: int| start <= j < f@.len() && !crate::parse::is_digit(f@[j]);
                    assert(b[j - start] == f@[j]);
                }
            }
            if f.len() == start || !all {
                Err(owned("invalid digit found in string"))
            } else {
                Err(owned("number too large to fit in target type"))
            }
        },
    }
}

} // verus!
