//! The settings dialog: what its fields read and show, its tables of bindings,
//! and what is done with its edits.
use crate::text::{
    begins_with, chars_of, decimal, fmt_u64, pieces, split, trim, trimmed, views,
};
use vstd::prelude::*;

verus! {

/// A radio interface.
#[derive(Clone, Copy, Debug, PartialEq, Eq, Structural)]
pub enum Backend {
    /// A removed choice that old configurations may still hold.
    Auto,
    Soapy,
    Hpsdr,
    Cat,
    Tci,
    Flex,
    Icom,
}

/// The interfaces to choose between. SoapySDR is offered only where it is
/// compiled in; there is no auto-detection.
pub fn iface_options(soapy_supported: bool) -> (r: Vec<Backend>)
    ensures
        r@ == (if soapy_supported {
            seq![Backend::Soapy]
        } else {
            seq![]
        }) + seq![Backend::Hpsdr, Backend::Cat, Backend::Tci, Backend::Flex, Backend::Icom],
{
    let mut v: Vec<Backend> = Vec::new();
    if soapy_supported {
        v.push(Backend::Soapy);
    }
    v.push(Backend::Hpsdr);
    v.push(Backend::Cat);
    v.push(Backend::Tci);
    v.push(Backend::Flex);
    v.push(Backend::Icom);
    assert(v@ =~= (if soapy_supported {
        seq![Backend::Soapy]
    } else {
        seq![]
    }) + seq![Backend::Hpsdr, Backend::Cat, Backend::Tci, Backend::Flex, Backend::Icom]);
    v
}

/// The lines of a text that are not blank, trimmed.
pub open spec fn filled_lines(lines: Seq<Seq<char>>) -> Seq<Seq<char>>
    decreases lines.len(),
{
    if lines.len() == 0 {
        seq![]
    } else {
        let rest = filled_lines(lines.drop_last());
        let line = trimmed(lines.last());
        if line.len() > 0 {
            rest.push(line)
        } else {
            rest
        }
    }
}

/// The extra commands for the cluster, one per line of what was typed.
pub fn cluster_commands(text: &str) -> (r: Vec<String>)
    ensures
        views(r@) == filled_lines(pieces(text@, '\n')),
{
    let lines = split(text, '\n');
    let ghost all = pieces(text@, '\n');
    let mut out: Vec<String> = Vec::new();
    let mut i: usize = 0;
    assert(all.take(0) =~= Seq::<Seq<char>>::empty());
    assert(views(out@) =~= Seq::<Seq<char>>::empty());
    while i < lines.len()
        invariant
            i <= lines@.len(),
            views(lines@) == all,
            views(out@) == filled_lines(all.take(i as int)),
        decreases lines@.len() - i,
    {
        let ghost before = out@;
        proof {
            assert(all.take(i + 1).drop_last() =~= all.take(i as int));
            assert(all.take(i + 1).last() == lines@[i as int]@);
        }
        let line = trim(lines[i].as_str());
        if !line.as_str().is_empty() {
            let ghost text = line@;
            out.push(line);
            assert(views(out@) =~= views(before).push(text));
        }
        i = i + 1;
    }
    assert(all.take(i as int) =~= all);
    out
}

/// Some commands as a text, one per line.
pub open spec fn joined_lines(v: Seq<Seq<char>>) -> Seq<char>
    decreases v.len(),
{
    if v.len() == 0 {
        Seq::empty()
    } else if v.len() == 1 {
        v[0]
    } else {
        joined_lines(v.drop_last()) + seq!['\n'] + v.last()
    }
}

/// Some commands as a text, one per line.
pub fn cluster_text(commands: &Vec<String>) -> (r: String)
    ensures
        r@ == joined_lines(views(commands@)),
{
    let mut s = String::new();
    let mut i: usize = 0;
    let ghost all = views(commands@);
    assert(all.take(0) =~= Seq::<Seq<char>>::empty());
    assert(s@ =~= joined_lines(all.take(0)));
    while i < commands.len()
        invariant
            i <= commands@.len(),
            all == views(commands@),
            s@ == joined_lines(all.take(i as int)),
        decreases commands@.len() - i,
    {
        proof {
            assert(all.take(i + 1).drop_last() =~= all.take(i as int));
            assert(all.take(i + 1).last() == commands@[i as int]@);
        }
        if i > 0 {
            s.push('\n');
        }
        s.append(commands[i].as_str());
        assert(s@ =~= joined_lines(all.take(i + 1)));
        i = i + 1;
    }
    assert(all.take(i as int) =~= all);
    s
}

proof fn lemma_pieces_of_joined(v: Seq<Seq<char>>)
    requires
        v.len() > 0,
        forall|i: int, k: int|
            0 <= i < v.len() && 0 <= k < v[i].len() ==> #[trigger] v[i][k] != '\n',
    ensures
        pieces(joined_lines(v), '\n') == v,
    decreases v.len(),
{
    if v.len() == 1 {
        assert forall|k: int| 0 <= k < v[0].len() implies v[0][k] != '\n' by {}
        crate::text::lemma_pieces_single(v[0], '\n');
        assert(v =~= seq![v[0]]);
    } else {
        let t = v.drop_last();
        assert forall|i: int, k: int| 0 <= i < t.len() && 0 <= k < t[i].len() implies #[trigger] t[i][k]
            != '\n' by {
            assert(t[i] == v[i]);
            assert(v[i][k] != '\n');
        }
        lemma_pieces_of_joined(t);
        let last = v[v.len() - 1];
        assert forall|k: int| 0 <= k < last.len() implies last[k] != '\n' by {
            assert(v[v.len() - 1][k] != '\n');
        }
        crate::text::lemma_pieces_append(joined_lines(t), '\n', last);
        assert(v =~= t.push(last));
    }
}

proof fn lemma_filled_same(v: Seq<Seq<char>>)
    requires
        forall|i: int|
            0 <= i < v.len() ==> (#[trigger] v[i]).len() > 0 && trimmed(v[i]) == v[i],
    ensures
        filled_lines(v) == v,
    decreases v.len(),
{
    if v.len() > 0 {
        let t = v.drop_last();
        assert forall|i: int| 0 <= i < t.len() implies (#[trigger] t[i]).len() > 0 && trimmed(t[i])
            == t[i] by {
            assert(t[i] == v[i]);
        }
        lemma_filled_same(t);
        assert(v[v.len() - 1] == v.last());
        assert(v =~= t.push(v.last()));
    }
}

/// Commands that were applied read back as they are: showing them as a text and
/// applying that text again changes nothing.
pub proof fn law_commands_survive_editing(v: Seq<Seq<char>>)
    requires
        forall|i: int|
            0 <= i < v.len() ==> (#[trigger] v[i]).len() > 0 && trimmed(v[i]) == v[i],
        forall|i: int, k: int|
            0 <= i < v.len() && 0 <= k < v[i].len() ==> #[trigger] v[i][k] != '\n',
    ensures
        filled_lines(pieces(joined_lines(v), '\n')) == v,
{
    if v.len() == 0 {
        let e = joined_lines(v);
        crate::text::lemma_pieces_single(e, '\n');
        reveal_with_fuel(filled_lines, 2);
        crate::text::lemma_trimmed_same(e);
        assert(seq![e].drop_last() =~= Seq::<Seq<char>>::empty());
        assert(filled_lines(seq![e]) =~= v);
    } else {
        lemma_pieces_of_joined(v);
        lemma_filled_same(v);
    }
}

/// The value of a hexadecimal digit, or -1.
pub open spec fn hex_value(c: char) -> int {
    if '0' <= c && c <= '9' {
        c as int - 48
    } else if 'A' <= c && c <= 'F' {
        c as int - 55
    } else if 'a' <= c && c <= 'f' {
        c as int - 87
    } else {
        -1
    }
}

/// The number that a string of hexadecimal digits stands for.
pub open spec fn hex_number(s: Seq<char>) -> int
    decreases s.len(),
{
    if s.len() == 0 {
        0
    } else {
        hex_number(s.drop_last()) * 16 + hex_value(s.last())
    }
}

/// A string without the prefixes `0x` in front of it.
pub open spec fn without_prefix(s: Seq<char>) -> Seq<char>
    decreases s.len(),
{
    if s.len() >= 2 && s[0] == '0' && s[1] == 'x' {
        without_prefix(s.skip(2))
    } else {
        s
    }
}

/// Whether a string is made of hexadecimal digits, at least one.
pub open spec fn all_hex(s: Seq<char>) -> bool {
    s.len() > 0 && forall|i: int| 0 <= i < s.len() ==> hex_value(#[trigger] s[i]) >= 0
}

/// The byte that a text stands for in hexadecimal, with or without `0x` and a
/// plus sign, if it does.
pub open spec fn hex_byte(s: Seq<char>) -> Option<int> {
    let t = without_prefix(trimmed(s));
    let digits = if t.len() > 0 && t[0] == '+' {
        t.drop_first()
    } else {
        t
    };
    if all_hex(digits) && hex_number(digits) <= 255 {
        Some(hex_number(digits))
    } else {
        None
    }
}

fn hex_digit_value(c: char) -> (r: i32)
    ensures
        r == hex_value(c),
        -1 <= r <= 15,
{
    if '0' <= c && c <= '9' {
        (c as u32) as i32 - 48
    } else if 'A' <= c && c <= 'F' {
        (c as u32) as i32 - 55
    } else if 'a' <= c && c <= 'f' {
        (c as u32) as i32 - 87
    } else {
        -1
    }
}

proof fn lemma_hex_prefix(s: Seq<char>, k: int)
    requires
        forall|i: int| 0 <= i < s.len() ==> hex_value(#[trigger] s[i]) >= 0,
        0 <= k <= s.len(),
    ensures
        0 <= hex_number(s.take(k)) <= hex_number(s),
    decreases s.len() - k,
{
    if k == s.len() {
        assert(s.take(k) =~= s);
        lemma_hex_nonneg(s);
    } else {
        lemma_hex_prefix(s, k + 1);
        lemma_hex_nonneg(s.take(k));
        assert(s.take(k + 1).drop_last() =~= s.take(k));
    }
}

proof fn lemma_hex_nonneg(s: Seq<char>)
    requires
        forall|i: int| 0 <= i < s.len() ==> hex_value(#[trigger] s[i]) >= 0,
    ensures
        hex_number(s) >= 0,
    decreases s.len(),
{
    if s.len() > 0 {
        lemma_hex_nonneg(s.drop_last());
    }
}

/// The byte that was typed in hexadecimal.
pub fn parse_hex_byte(text: &str) -> (r: Option<u8>)
    ensures
        match r {
            Some(v) => hex_byte(text@) == Some(v as int),
            None => hex_byte(text@) is None,
        },
{
    let v = chars_of(trim(text).as_str());
    let ghost all = trimmed(text@);
    let mut start: usize = 0;
    assert(all.skip(0) =~= all);
    while start < v.len() && v.len() - start >= 2 && v[start] == '0' && v[start + 1] == 'x'
        invariant
            v@ == all,
            start <= v@.len(),
            without_prefix(all.skip(start as int)) == without_prefix(all),
        decreases v@.len() - start,
    {
        assert(all.skip(start as int).skip(2) =~= all.skip(start + 2));
        start = start + 2;
    }
    let ghost rest = without_prefix(all);
    assert(rest == all.skip(start as int));
    if start < v.len() && v[start] == '+' {
        assert(rest.drop_first() =~= all.skip(start + 1));
        start = start + 1;
    }
    let ghost digits = all.skip(start as int);
    if start >= v.len() {
        return None;
    }
    let mut acc: i32 = 0;
    let mut i: usize = start;
    assert(digits.take(0) =~= Seq::<char>::empty());
    while i < v.len()
        invariant
            v@ == all,
            digits == all.skip(start as int),
            digits.len() > 0,
            start <= i <= v@.len(),
            rest == without_prefix(trimmed(text@)),
            digits == (if rest.len() > 0 && rest[0] == '+' {
                rest.drop_first()
            } else {
                rest
            }),
            0 <= acc <= 255,
            acc == hex_number(digits.take(i - start)),
            forall|k: int| 0 <= k < i - start ==> hex_value(#[trigger] digits[k]) >= 0,
        decreases v@.len() - i,
    {
        let d: i32 = hex_digit_value(v[i]);
        assert(v@[i as int] == digits[i - start]);
        if d < 0 {
            assert(hex_value(digits[i - start]) < 0);
            return None;
        }
        assert(digits.take(i + 1 - start).drop_last() =~= digits.take(i - start));
        acc = acc * 16 + d;
        if acc > 255 {
            proof {
                if all_hex(digits) {
                    lemma_hex_prefix(digits, i + 1 - start);
                }
            }
            return None;
        }
        i = i + 1;
    }
    assert(digits.take(i - start) =~= digits);
    Some(acc as u8)
}

/// The character of a hexadecimal digit.
pub open spec fn hex_char(d: int) -> char {
    if d < 10 {
        (48 + d) as char
    } else {
        (55 + d) as char
    }
}

fn hex_digit(d: u8) -> (c: char)
    requires
        d < 16,
    ensures
        c == hex_char(d as int),
{
    if d < 10 {
        (48u8 + d) as char
    } else {
        (55u8 + d) as char
    }
}

/// A byte as two hexadecimal digits.
pub fn show_hex_byte(v: u8) -> (r: String)
    ensures
        r@ == seq![hex_char(v as int / 16), hex_char(v as int % 16)],
{
    let mut s = String::new();
    s.push(hex_digit(v / 16));
    s.push(hex_digit(v % 16));
    assert(s@ =~= seq![hex_char(v as int / 16), hex_char(v as int % 16)]);
    s
}

/// The byte that a field shows is the one that it reads.
pub proof fn law_hex_field_reads_back(v: int)
    requires
        0 <= v <= 255,
    ensures
        hex_byte(seq![hex_char(v / 16), hex_char(v % 16)]) == Some(v),
{
    let s = seq![hex_char(v / 16), hex_char(v % 16)];
    crate::text::lemma_trimmed_same(s);
    reveal_with_fuel(hex_number, 3);
    assert(s.drop_last() =~= seq![s[0]]);
    assert(seq![s[0]].drop_last() =~= Seq::<char>::empty());
    assert(hex_value(s[0]) == v / 16);
    assert(hex_value(s[1]) == v % 16);
    assert(s[1] != 'x');
    assert(s[0] != '+');
    assert(all_hex(s));
}

/// An address that was typed, or none if nothing was.
pub fn manual_ip(text: &str) -> (r: Option<String>)
    ensures
        match r {
            Some(s) => s@ == trimmed(text@) && s@.len() > 0,
            None => trimmed(text@).len() == 0,
        },
{
    let t = trim(text);
    if t.as_str().is_empty() {
        None
    } else {
        Some(t)
    }
}

/// What a server reports of itself.
#[derive(Debug)]
pub struct ServerStatus {
    pub running: bool,
    pub addr: String,
    pub clients: usize,
    pub error: Option<String>,
}

/// How a status line is drawn.
#[derive(Clone, Copy, Debug, PartialEq, Eq, Structural)]
pub enum StatusTone {
    Good,
    Bad,
    Plain,
}

/// The status line of a server.
pub open spec fn server_text(s: Option<ServerStatus>) -> (StatusTone, Seq<char>) {
    match s {
        Some(s) => if s.running {
            (
                StatusTone::Good,
                "● Listening on "@ + s.addr@ + " — "@ + (if s.clients == 1 {
                    "1 client"@
                } else {
                    decimal(s.clients as nat) + " clients"@
                }),
            )
        } else {
            match s.error {
                Some(e) => (StatusTone::Bad, "Failed: "@ + e@),
                None => (StatusTone::Plain, "Not running."@),
            }
        },
        None => (StatusTone::Plain, "Status unknown — press APPLY."@),
    }
}

/// The status line of a server.
pub fn server_status_line(s: &Option<ServerStatus>) -> (r: (StatusTone, String))
    ensures
        r.0 == server_text(*s).0,
        r.1@ == server_text(*s).1,
{
    match s {
        Some(s) => {
            if s.running {
                let mut t = "● Listening on ".to_owned();
                t.append(s.addr.as_str());
                t.append(" — ");
                if s.clients == 1 {
                    t.append("1 client");
                } else {
                    t.append(fmt_u64(s.clients as u64).as_str());
                    t.append(" clients");
                }
                assert(t@ =~= "● Listening on "@ + s.addr@ + " — "@ + (if s.clients == 1 {
                    "1 client"@
                } else {
                    decimal(s.clients as nat) + " clients"@
                }));
                (StatusTone::Good, t)
            } else {
                match &s.error {
                    Some(e) => {
                        let mut t = "Failed: ".to_owned();
                        t.append(e.as_str());
                        (StatusTone::Bad, t)
                    },
                    None => (StatusTone::Plain, "Not running.".to_owned()),
                }
            }
        },
        None => (StatusTone::Plain, "Status unknown — press APPLY.".to_owned()),
    }
}

/// What is said of the operator's identity on the network tabs.
#[derive(Debug)]
pub enum Identity {
    /// The settings have not been loaded yet.
    Unknown,
    /// The callsign or the grid is missing.
    Missing,
    /// The callsign and the grid that are reported.
    Known { call: String, grid: String },
}

/// What is said of the operator's identity on the network tabs.
pub fn operator_identity(my_call: &str, my_grid: &str, seeded: bool) -> (r: Identity)
    ensures
        match r {
            Identity::Unknown => !seeded,
            Identity::Missing => seeded && (trimmed(my_call@).len() == 0 || trimmed(
                my_grid@,
            ).len() == 0),
            Identity::Known { call, grid } => {
                &&& seeded
                &&& call@ == trimmed(my_call@) && call@.len() > 0
                &&& grid@ == trimmed(my_grid@) && grid@.len() > 0
            },
        },
{
    if !seeded {
        return Identity::Unknown;
    }
    let call = trim(my_call);
    let grid = trim(my_grid);
    if call.as_str().is_empty() || grid.as_str().is_empty() {
        Identity::Missing
    } else {
        Identity::Known { call, grid }
    }
}

/// Whether the shared network status line is about the FreeDV reporter.
pub fn is_freedv_status(status: &str) -> (r: bool)
    ensures
        r == begins_with(status@, "FreeDV Reporter"@),
{
    let name = "FreeDV Reporter";
    let n: usize = name.unicode_len();
    let r = crate::text::keeps_prefix(status, name, n);
    assert(crate::text::first_chars(name@, n as int) == name@);
    r
}

/// A table of bindings, one row of which may be waiting for the key, or the
/// control, that it is to be bound to.
#[derive(Debug)]
pub struct Bindings<T> {
    pub rows: Vec<T>,
    pub capture: Option<usize>,
}

impl<T> Bindings<T> {
    /// A press on a row's binding: wait for a key, or stop waiting.
    pub fn press(&mut self, i: usize)
        ensures
            final(self).rows == old(self).rows,
            final(self).capture == if old(self).capture == Some(i) {
                None::<usize>
            } else {
                Some(i)
            },
    {
        let waiting = match self.capture {
            Some(c) => c == i,
            None => false,
        };
        self.capture = if waiting {
            None
        } else {
            Some(i)
        };
    }

    /// Remove a row; one that was waiting no longer does.
    pub fn remove(&mut self, i: usize)
        requires
            i < old(self).rows@.len(),
        ensures
            final(self).rows@ == old(self).rows@.remove(i as int),
            final(self).capture == if old(self).capture == Some(i) {
                None::<usize>
            } else {
                old(self).capture
            },
    {
        self.rows.remove(i);
        if let Some(c) = self.capture {
            if c == i {
                self.capture = None;
            }
        }
    }

    /// Add a row, which waits for its key at once.
    pub fn add_row(&mut self, row: T)
        ensures
            final(self).rows@ == old(self).rows@.push(row),
            final(self).capture == Some(old(self).rows@.len() as usize),
    {
        let n: usize = self.rows.len();
        self.rows.push(row);
        self.capture = Some(n);
    }

    /// Replace all rows; none waits.
    pub fn restore(&mut self, rows: Vec<T>)
        ensures
            final(self).rows@ == rows@,
            final(self).capture is None,
    {
        self.rows = rows;
        self.capture = None;
    }
}

/// Which entries of a list of actions start a new group, and so get a heading:
/// those whose group differs from the one before. The list starts in a group
/// without a name.
pub open spec fn starts_group(groups: Seq<Seq<char>>, i: int) -> bool {
    if i == 0 {
        groups[0].len() > 0
    } else {
        groups[i] != groups[i - 1]
    }
}

/// Which entries of a list of actions get a heading.
pub fn group_headings(groups: &Vec<String>) -> (r: Vec<bool>)
    ensures
        r@.len() == groups@.len(),
        forall|i: int|
            0 <= i < r@.len() ==> #[trigger] r@[i] == starts_group(views(groups@), i),
{
    let mut out: Vec<bool> = Vec::new();
    let mut i: usize = 0;
    while i < groups.len()
        invariant
            i <= groups@.len(),
            out@.len() == i,
            forall|k: int|
                0 <= k < i ==> #[trigger] out@[k] == starts_group(views(groups@), k),
        decreases groups@.len() - i,
    {
        let starts = if i == 0 {
            !groups[0].as_str().is_empty()
        } else {
            groups[i] != groups[i - 1]
        };
        assert(views(groups@)[i as int] == groups@[i as int]@);
        out.push(starts);
        i = i + 1;
    }
    out
}

/// A MIDI port that was picked: its id reconnects across a replug, its name is
/// the label.
#[derive(Debug)]
pub struct MidiPort {
    pub id: String,
    pub name: String,
}

impl MidiPort {
    /// What the list shows as picked.
    pub fn shown(&self) -> (r: String)
        ensures
            r@ == if self.name@.len() == 0 {
                "— none —"@
            } else {
                self.name@
            },
    {
        if self.name.as_str().is_empty() {
            "— none —".to_owned()
        } else {
            self.name.clone()
        }
    }

    /// Pick a port, or none.
    pub fn pick(&mut self, port: Option<(&str, &str)>)
        ensures
            match port {
                Some(p) => final(self).id@ == p.0@ && final(self).name@ == p.1@,
                None => final(self).id@.len() == 0 && final(self).name@.len() == 0,
            },
    {
        match port {
            Some(p) => {
                self.id = p.0.to_owned();
                self.name = p.1.to_owned();
            },
            None => {
                self.id = String::new();
                self.name = String::new();
            },
        }
    }
}

/// What a list of sound devices shows as picked.
pub fn device_shown(selected: &Option<String>) -> (r: String)
    ensures
        r@ == match selected {
            Some(n) => n@,
            None => "System default"@,
        },
{
    match selected {
        Some(n) => n.clone(),
        None => "System default".to_owned(),
    }
}

/// A device that discovery found.
#[derive(Debug)]
pub struct FoundDevice {
    pub ip: String,
    pub protocol: u8,
}

/// The first device with an address.
pub open spec fn device_at(devices: Seq<FoundDevice>, ip: Seq<char>, n: int) -> Option<u8>
    decreases n,
{
    if n <= 0 {
        None
    } else {
        match device_at(devices, ip, n - 1) {
            Some(p) => Some(p),
            None => if devices[n - 1].ip@ == ip {
                Some(devices[n - 1].protocol)
            } else {
                None
            },
        }
    }
}

/// The protocol of the selected device, which decides the rates offered; 2 when
/// it is not among those found.
pub fn selected_protocol(devices: &Vec<FoundDevice>, selected: &Option<String>) -> (r: u8)
    ensures
        r == match selected {
            Some(ip) => match device_at(devices@, ip@, devices@.len() as int) {
                Some(p) => p,
                None => 2,
            },
            None => 2,
        },
{
    if let Some(ip) = selected {
        let mut i: usize = 0;
        while i < devices.len()
            invariant
                *selected == Some(*ip),
                i <= devices@.len(),
                device_at(devices@, ip@, i as int) is None,
            decreases devices@.len() - i,
        {
            if devices[i].ip == *ip {
                proof {
                    lemma_device_found(devices@, ip@, i as int, devices@.len() as int);
                }
                return devices[i].protocol;
            }
            i = i + 1;
        }
    }
    2
}

proof fn lemma_device_found(devices: Seq<FoundDevice>, ip: Seq<char>, k: int, n: int)
    requires
        0 <= k < n <= devices.len(),
        device_at(devices, ip, k) is None,
        devices[k].ip@ == ip,
    ensures
        device_at(devices, ip, n) == Some(devices[k].protocol),
    decreases n,
{
    if n > k + 1 {
        lemma_device_found(devices, ip, k, n - 1);
    }
}

/// Whether both wheel actions tune, which leaves no way to zoom.
pub fn wheel_cannot_zoom(wheel_tunes: bool, shift_tunes: bool) -> (r: bool)
    ensures
        r == (wheel_tunes && shift_tunes),
{
    wheel_tunes && shift_tunes
}

/// What opening, closing or showing the dialog asks for.
#[derive(Clone, Copy, Debug, PartialEq, Eq, Structural)]
pub enum DialogNeed {
    /// The dialog is closed: forget the lists of devices.
    Forget,
    /// It was just opened: query the slow lists once.
    Query,
    Nothing,
}

/// What the dialog needs this frame.
pub fn dialog_need(show: bool, queried: bool) -> (r: DialogNeed)
    ensures
        r == if !show {
            DialogNeed::Forget
        } else if !queried {
            DialogNeed::Query
        } else {
            DialogNeed::Nothing
        },
{
    if !show {
        DialogNeed::Forget
    } else if !queried {
        DialogNeed::Query
    } else {
        DialogNeed::Nothing
    }
}

/// What was edited or pressed in the dialog this frame.
#[derive(Clone, Copy, Debug, PartialEq, Eq, Structural)]
pub struct Edits {
    pub net_apply: bool,
    pub net_sync: bool,
    pub midi_rescan: bool,
    pub input_changed: bool,
    pub tci_server_apply: bool,
    pub rigctld_apply: bool,
    pub wsjtx_apply: bool,
    pub audio_picked: bool,
    pub hpsdr_discover: bool,
    pub flex_discover: bool,
    pub flex_test: bool,
    /// Whether a FlexRadio's address is known.
    pub flex_addressed: bool,
    pub tci_test: bool,
    pub apply_iface: bool,
    /// Whether there is a radio configuration at all.
    pub has_radio: bool,
    pub radio_changed: bool,
    pub ui_changed: bool,
    /// Whether the operator's settings have been loaded.
    pub digi_seeded: bool,
    pub digi_changed: bool,
}

/// What is done with the edits.
#[derive(Clone, Copy, Debug, PartialEq, Eq, Structural)]
pub enum Effect {
    /// Split the cluster commands and send the network settings.
    SendNetwork,
    SyncConfirmations,
    /// List the MIDI ports anew.
    RescanMidi,
    /// Take over the bindings and save them.
    SaveInput,
    SendTciServer,
    SendRigctld,
    SendWsjtx,
    /// Switch the sound device and query the lists anew.
    SwitchAudio,
    DiscoverHpsdr,
    DiscoverFlex,
    /// Say that no radio is selected.
    RefuseFlexTest,
    TestFlex,
    TestTci,
    /// Save the radio settings.
    SetRadio,
    /// Open the radio anew.
    ReopenSource,
    /// Keep the edited radio settings.
    KeepRadio,
    SaveUi,
    /// Take over the operator's settings and send them.
    SendDigi,
}

/// One effect if a condition holds.
pub open spec fn when(on: bool, e: Effect) -> Seq<Effect> {
    if on {
        seq![e]
    } else {
        seq![]
    }
}

/// What is done with the edits of the network and server tabs.
pub open spec fn network_effects(e: Edits) -> Seq<Effect> {
    when(e.net_apply, Effect::SendNetwork) + when(e.net_sync, Effect::SyncConfirmations) + when(
        e.midi_rescan,
        Effect::RescanMidi,
    ) + when(e.input_changed, Effect::SaveInput) + when(e.tci_server_apply, Effect::SendTciServer) + when(
        e.rigctld_apply,
        Effect::SendRigctld,
    ) + when(e.wsjtx_apply, Effect::SendWsjtx)
}

/// What is done with the edits of the radio and its devices.
pub open spec fn device_effects(e: Edits) -> Seq<Effect> {
    when(e.audio_picked, Effect::SwitchAudio) + when(e.hpsdr_discover, Effect::DiscoverHpsdr)
        + when(e.flex_discover, Effect::DiscoverFlex) + when(
        e.flex_test && e.has_radio && !e.flex_addressed,
        Effect::RefuseFlexTest,
    ) + when(e.flex_test && e.has_radio && e.flex_addressed, Effect::TestFlex) + when(
        e.tci_test && e.has_radio,
        Effect::TestTci,
    )
}

/// What is done with the settings that are kept here.
pub open spec fn kept_effects(e: Edits) -> Seq<Effect> {
    when(e.apply_iface && e.has_radio, Effect::SetRadio) + when(
        e.apply_iface,
        Effect::ReopenSource,
    ) + when(e.radio_changed && e.has_radio, Effect::SetRadio) + when(
        e.radio_changed,
        Effect::KeepRadio,
    ) + when(e.ui_changed, Effect::SaveUi) + when(
        e.digi_seeded && e.digi_changed,
        Effect::SendDigi,
    )
}

/// What is done with the edits, in order.
pub open spec fn effects_of(e: Edits) -> Seq<Effect> {
    network_effects(e) + device_effects(e) + kept_effects(e)
}

fn add_when(v: Vec<Effect>, on: bool, e: Effect) -> (r: Vec<Effect>)
    ensures
        r@ == v@ + when(on, e),
{
    let mut v = v;
    let ghost before = v@;
    if on {
        v.push(e);
    }
    assert(v@ =~= before + when(on, e));
    v
}

fn list_network_effects(e: &Edits) -> (r: Vec<Effect>)
    ensures
        r@ == network_effects(*e),
{
    let v: Vec<Effect> = Vec::new();
    let v = add_when(v, e.net_apply, Effect::SendNetwork);
    assert(v@ =~= when(e.net_apply, Effect::SendNetwork));
    let v = add_when(v, e.net_sync, Effect::SyncConfirmations);
    let v = add_when(v, e.midi_rescan, Effect::RescanMidi);
    let v = add_when(v, e.input_changed, Effect::SaveInput);
    let v = add_when(v, e.tci_server_apply, Effect::SendTciServer);
    let v = add_when(v, e.rigctld_apply, Effect::SendRigctld);
    add_when(v, e.wsjtx_apply, Effect::SendWsjtx)
}

fn list_device_effects(e: &Edits) -> (r: Vec<Effect>)
    ensures
        r@ == device_effects(*e),
{
    let v: Vec<Effect> = Vec::new();
    let v = add_when(v, e.audio_picked, Effect::SwitchAudio);
    assert(v@ =~= when(e.audio_picked, Effect::SwitchAudio));
    let v = add_when(v, e.hpsdr_discover, Effect::DiscoverHpsdr);
    let v = add_when(v, e.flex_discover, Effect::DiscoverFlex);
    let v = add_when(v, e.flex_test && e.has_radio && !e.flex_addressed, Effect::RefuseFlexTest);
    let v = add_when(v, e.flex_test && e.has_radio && e.flex_addressed, Effect::TestFlex);
    add_when(v, e.tci_test && e.has_radio, Effect::TestTci)
}

fn list_kept_effects(e: &Edits) -> (r: Vec<Effect>)
    ensures
        r@ == kept_effects(*e),
{
    let v: Vec<Effect> = Vec::new();
    let v = add_when(v, e.apply_iface && e.has_radio, Effect::SetRadio);
    assert(v@ =~= when(e.apply_iface && e.has_radio, Effect::SetRadio));
    let v = add_when(v, e.apply_iface, Effect::ReopenSource);
    let v = add_when(v, e.radio_changed && e.has_radio, Effect::SetRadio);
    let v = add_when(v, e.radio_changed, Effect::KeepRadio);
    let v = add_when(v, e.ui_changed, Effect::SaveUi);
    add_when(v, e.digi_seeded && e.digi_changed, Effect::SendDigi)
}

/// What is done with the dialog's edits, in order.
pub fn settings_effects(e: &Edits) -> (r: Vec<Effect>)
    ensures
        r@ == effects_of(*e),
{
    let mut v = list_network_effects(e);
    let mut device = list_device_effects(e);
    let mut kept = list_kept_effects(e);
    v.append(&mut device);
    v.append(&mut kept);
    v
}

proof fn lemma_not_in_sum(a: Seq<Effect>, b: Seq<Effect>, x: Effect)
    requires
        !a.contains(x),
        !b.contains(x),
    ensures
        !(a + b).contains(x),
{
    if (a + b).contains(x) {
        let i = choose|i: int| 0 <= i < (a + b).len() && (a + b)[i] == x;
        if i < a.len() {
            assert(a[i] == x);
        } else {
            assert(b[i - a.len()] == x);
        }
    }
}

proof fn lemma_not_when(a: Seq<Effect>, on: bool, e: Effect, x: Effect)
    requires
        !a.contains(x),
        !on || e != x,
    ensures
        !(a + when(on, e)).contains(x),
{
    assert(!when(on, e).contains(x));
    lemma_not_in_sum(a, when(on, e), x);
}

/// The engine's saved operator settings are never overwritten with defaults:
/// nothing is sent before they have been loaded.
pub proof fn law_no_settings_sent_before_loading(e: Edits)
    requires
        !e.digi_seeded,
    ensures
        !effects_of(e).contains(Effect::SendDigi),
{
    let x = Effect::SendDigi;
    let n = when(e.net_apply, Effect::SendNetwork);
    assert(!n.contains(x));
    lemma_not_when(n, e.net_sync, Effect::SyncConfirmations, x);
    let n = n + when(e.net_sync, Effect::SyncConfirmations);
    lemma_not_when(n, e.midi_rescan, Effect::RescanMidi, x);
    let n = n + when(e.midi_rescan, Effect::RescanMidi);
    lemma_not_when(n, e.input_changed, Effect::SaveInput, x);
    let n = n + when(e.input_changed, Effect::SaveInput);
    lemma_not_when(n, e.tci_server_apply, Effect::SendTciServer, x);
    let n = n + when(e.tci_server_apply, Effect::SendTciServer);
    lemma_not_when(n, e.rigctld_apply, Effect::SendRigctld, x);
    let n = n + when(e.rigctld_apply, Effect::SendRigctld);
    lemma_not_when(n, e.wsjtx_apply, Effect::SendWsjtx, x);
    let d = when(e.audio_picked, Effect::SwitchAudio);
    assert(!d.contains(x));
    lemma_not_when(d, e.hpsdr_discover, Effect::DiscoverHpsdr, x);
    let d = d + when(e.hpsdr_discover, Effect::DiscoverHpsdr);
    lemma_not_when(d, e.flex_discover, Effect::DiscoverFlex, x);
    let d = d + when(e.flex_discover, Effect::DiscoverFlex);
    let refused = e.flex_test && e.has_radio && !e.flex_addressed;
    lemma_not_when(d, refused, Effect::RefuseFlexTest, x);
    let d = d + when(refused, Effect::RefuseFlexTest);
    let tested = e.flex_test && e.has_radio && e.flex_addressed;
    lemma_not_when(d, tested, Effect::TestFlex, x);
    let d = d + when(tested, Effect::TestFlex);
    lemma_not_when(d, e.tci_test && e.has_radio, Effect::TestTci, x);
    let k = when(e.apply_iface && e.has_radio, Effect::SetRadio);
    assert(!k.contains(x));
    lemma_not_when(k, e.apply_iface, Effect::ReopenSource, x);
    let k = k + when(e.apply_iface, Effect::ReopenSource);
    lemma_not_when(k, e.radio_changed && e.has_radio, Effect::SetRadio, x);
    let k = k + when(e.radio_changed && e.has_radio, Effect::SetRadio);
    lemma_not_when(k, e.radio_changed, Effect::KeepRadio, x);
    let k = k + when(e.radio_changed, Effect::KeepRadio);
    lemma_not_when(k, e.ui_changed, Effect::SaveUi, x);
    let k = k + when(e.ui_changed, Effect::SaveUi);
    lemma_not_when(k, e.digi_seeded && e.digi_changed, Effect::SendDigi, x);
    lemma_not_in_sum(network_effects(e), device_effects(e), x);
    lemma_not_in_sum(network_effects(e) + device_effects(e), kept_effects(e), x);
}

/// Whether an effect is among those of some edits is seen in the parts of them.
proof fn lemma_when(v: Seq<Effect>, on: bool, e: Effect, x: Effect)
    ensures
        (v + when(on, e)).contains(x) <==> v.contains(x) || (on && x == e),
{
    let r = v + when(on, e);
    if v.contains(x) {
        let i = choose|i: int| 0 <= i < v.len() && v[i] == x;
        assert(r[i] == x);
    }
    if on && x == e {
        assert(r[v.len() as int] == x);
    }
    if r.contains(x) {
        let i = choose|i: int| 0 <= i < r.len() && r[i] == x;
        if i < v.len() {
            assert(v[i] == x);
        }
    }
}

/// Whether an effect is in two lists together is seen in each.
proof fn lemma_both(v: Seq<Effect>, w: Seq<Effect>, x: Effect)
    ensures
        (v + w).contains(x) <==> v.contains(x) || w.contains(x),
{
    let r = v + w;
    if v.contains(x) {
        let i = choose|i: int| 0 <= i < v.len() && v[i] == x;
        assert(r[i] == x);
    }
    if w.contains(x) {
        let i = choose|i: int| 0 <= i < w.len() && w[i] == x;
        assert(r[v.len() + i] == x);
    }
    if r.contains(x) {
        let i = choose|i: int| 0 <= i < r.len() && r[i] == x;
        if i < v.len() {
            assert(v[i] == x);
        } else {
            assert(w[i - v.len()] == x);
        }
    }
}

/// Every edit has its effect and no other does: what was applied is sent, what was
/// asked for is done, and what was changed is saved. A test of a radio is made with
/// one configured, and that of a FlexRadio is refused without an address.
pub proof fn law_every_edit_has_its_effect(e: Edits)
    ensures
        effects_of(e).contains(Effect::SendNetwork) <==> e.net_apply,
        effects_of(e).contains(Effect::SyncConfirmations) <==> e.net_sync,
        effects_of(e).contains(Effect::RescanMidi) <==> e.midi_rescan,
        effects_of(e).contains(Effect::SaveInput) <==> e.input_changed,
        effects_of(e).contains(Effect::SendTciServer) <==> e.tci_server_apply,
        effects_of(e).contains(Effect::SendRigctld) <==> e.rigctld_apply,
        effects_of(e).contains(Effect::SendWsjtx) <==> e.wsjtx_apply,
        effects_of(e).contains(Effect::SwitchAudio) <==> e.audio_picked,
        effects_of(e).contains(Effect::DiscoverHpsdr) <==> e.hpsdr_discover,
        effects_of(e).contains(Effect::DiscoverFlex) <==> e.flex_discover,
        effects_of(e).contains(Effect::RefuseFlexTest) <==> e.flex_test && e.has_radio
            && !e.flex_addressed,
        effects_of(e).contains(Effect::TestFlex) <==> e.flex_test && e.has_radio && e.flex_addressed,
        effects_of(e).contains(Effect::TestTci) <==> e.tci_test && e.has_radio,
        effects_of(e).contains(Effect::SetRadio) <==> (e.apply_iface || e.radio_changed)
            && e.has_radio,
        effects_of(e).contains(Effect::ReopenSource) <==> e.apply_iface,
        effects_of(e).contains(Effect::KeepRadio) <==> e.radio_changed,
        effects_of(e).contains(Effect::SaveUi) <==> e.ui_changed,
        effects_of(e).contains(Effect::SendDigi) <==> e.digi_seeded && e.digi_changed,
{
    assert forall|x: Effect| #[trigger] effects_of(e).contains(x) <==> {
        ||| e.net_apply && x == Effect::SendNetwork
        ||| e.net_sync && x == Effect::SyncConfirmations
        ||| e.midi_rescan && x == Effect::RescanMidi
        ||| e.input_changed && x == Effect::SaveInput
        ||| e.tci_server_apply && x == Effect::SendTciServer
        ||| e.rigctld_apply && x == Effect::SendRigctld
        ||| e.wsjtx_apply && x == Effect::SendWsjtx
        ||| e.audio_picked && x == Effect::SwitchAudio
        ||| e.hpsdr_discover && x == Effect::DiscoverHpsdr
        ||| e.flex_discover && x == Effect::DiscoverFlex
        ||| e.flex_test && e.has_radio && !e.flex_addressed && x == Effect::RefuseFlexTest
        ||| e.flex_test && e.has_radio && e.flex_addressed && x == Effect::TestFlex
        ||| e.tci_test && e.has_radio && x == Effect::TestTci
        ||| e.apply_iface && e.has_radio && x == Effect::SetRadio
        ||| e.apply_iface && x == Effect::ReopenSource
        ||| e.radio_changed && e.has_radio && x == Effect::SetRadio
        ||| e.radio_changed && x == Effect::KeepRadio
        ||| e.ui_changed && x == Effect::SaveUi
        ||| e.digi_seeded && e.digi_changed && x == Effect::SendDigi
    } by {
        lemma_both(network_effects(e) + device_effects(e), kept_effects(e), x);
        lemma_both(network_effects(e), device_effects(e), x);
        lemma_network(e, x);
        lemma_device(e, x);
        lemma_kept(e, x);
    }
}

/// The effects of the network tabs.
proof fn lemma_network(e: Edits, x: Effect)
    ensures
        network_effects(e).contains(x) <==> {
            ||| e.net_apply && x == Effect::SendNetwork
            ||| e.net_sync && x == Effect::SyncConfirmations
            ||| e.midi_rescan && x == Effect::RescanMidi
            ||| e.input_changed && x == Effect::SaveInput
            ||| e.tci_server_apply && x == Effect::SendTciServer
            ||| e.rigctld_apply && x == Effect::SendRigctld
            ||| e.wsjtx_apply && x == Effect::SendWsjtx
        },
{
    let none = Seq::<Effect>::empty();
    let a = when(e.net_apply, Effect::SendNetwork);
    let b = a + when(e.net_sync, Effect::SyncConfirmations);
    let c = b + when(e.midi_rescan, Effect::RescanMidi);
    let d = c + when(e.input_changed, Effect::SaveInput);
    let f = d + when(e.tci_server_apply, Effect::SendTciServer);
    let g = f + when(e.rigctld_apply, Effect::SendRigctld);
    assert(none + a == a);
    lemma_when(none, e.net_apply, Effect::SendNetwork, x);
    lemma_when(a, e.net_sync, Effect::SyncConfirmations, x);
    lemma_when(b, e.midi_rescan, Effect::RescanMidi, x);
    lemma_when(c, e.input_changed, Effect::SaveInput, x);
    lemma_when(d, e.tci_server_apply, Effect::SendTciServer, x);
    lemma_when(f, e.rigctld_apply, Effect::SendRigctld, x);
    lemma_when(g, e.wsjtx_apply, Effect::SendWsjtx, x);
}

/// The effects of the device tabs.
proof fn lemma_device(e: Edits, x: Effect)
    ensures
        device_effects(e).contains(x) <==> {
            ||| e.audio_picked && x == Effect::SwitchAudio
            ||| e.hpsdr_discover && x == Effect::DiscoverHpsdr
            ||| e.flex_discover && x == Effect::DiscoverFlex
            ||| e.flex_test && e.has_radio && !e.flex_addressed && x == Effect::RefuseFlexTest
            ||| e.flex_test && e.has_radio && e.flex_addressed && x == Effect::TestFlex
            ||| e.tci_test && e.has_radio && x == Effect::TestTci
        },
{
    let none = Seq::<Effect>::empty();
    let a = when(e.audio_picked, Effect::SwitchAudio);
    let b = a + when(e.hpsdr_discover, Effect::DiscoverHpsdr);
    let c = b + when(e.flex_discover, Effect::DiscoverFlex);
    let d = c + when(e.flex_test && e.has_radio && !e.flex_addressed, Effect::RefuseFlexTest);
    let f = d + when(e.flex_test && e.has_radio && e.flex_addressed, Effect::TestFlex);
    assert(none + a == a);
    lemma_when(none, e.audio_picked, Effect::SwitchAudio, x);
    lemma_when(a, e.hpsdr_discover, Effect::DiscoverHpsdr, x);
    lemma_when(b, e.flex_discover, Effect::DiscoverFlex, x);
    lemma_when(c, e.flex_test && e.has_radio && !e.flex_addressed, Effect::RefuseFlexTest, x);
    lemma_when(d, e.flex_test && e.has_radio && e.flex_addressed, Effect::TestFlex, x);
    lemma_when(f, e.tci_test && e.has_radio, Effect::TestTci, x);
}

/// The effects of the settings that are kept here.
proof fn lemma_kept(e: Edits, x: Effect)
    ensures
        kept_effects(e).contains(x) <==> {
            ||| e.apply_iface && e.has_radio && x == Effect::SetRadio
            ||| e.apply_iface && x == Effect::ReopenSource
            ||| e.radio_changed && e.has_radio && x == Effect::SetRadio
            ||| e.radio_changed && x == Effect::KeepRadio
            ||| e.ui_changed && x == Effect::SaveUi
            ||| e.digi_seeded && e.digi_changed && x == Effect::SendDigi
        },
{
    let none = Seq::<Effect>::empty();
    let a = when(e.apply_iface && e.has_radio, Effect::SetRadio);
    let b = a + when(e.apply_iface, Effect::ReopenSource);
    let c = b + when(e.radio_changed && e.has_radio, Effect::SetRadio);
    let d = c + when(e.radio_changed, Effect::KeepRadio);
    let f = d + when(e.ui_changed, Effect::SaveUi);
    assert(none + a == a);
    lemma_when(none, e.apply_iface && e.has_radio, Effect::SetRadio, x);
    lemma_when(a, e.apply_iface, Effect::ReopenSource, x);
    lemma_when(b, e.radio_changed && e.has_radio, Effect::SetRadio, x);
    lemma_when(c, e.radio_changed, Effect::KeepRadio, x);
    lemma_when(d, e.ui_changed, Effect::SaveUi, x);
    lemma_when(f, e.digi_seeded && e.digi_changed, Effect::SendDigi, x);
}

/// The device whose protocol counts is the first that has the address.
pub proof fn law_first_device_with_the_address_counts(
    devices: Seq<FoundDevice>,
    ip: Seq<char>,
    n: int,
    i: int,
)
    requires
        0 <= i < n <= devices.len(),
        devices[i].ip@ == ip,
        forall|k: int| 0 <= k < i ==> (#[trigger] devices[k]).ip@ != ip,
    ensures
        device_at(devices, ip, n) == Some(devices[i].protocol),
    decreases n,
{
    if i < n - 1 {
        law_first_device_with_the_address_counts(devices, ip, n - 1, i);
    } else {
        lemma_no_device(devices, ip, n - 1);
    }
}

/// Without the address there is none.
proof fn lemma_no_device(devices: Seq<FoundDevice>, ip: Seq<char>, n: int)
    requires
        n <= devices.len(),
        forall|k: int| 0 <= k < n ==> (#[trigger] devices[k]).ip@ != ip,
    ensures
        device_at(devices, ip, n) is None,
    decreases n,
{
    if n > 0 {
        lemma_no_device(devices, ip, n - 1);
    }
}

/// Two hexadecimal digits stand for a byte, the first for its sixteens, with or
/// without the prefix of hexadecimal numbers.
pub proof fn law_hex_digits_count_by_sixteen(c: char, d: char)
    requires
        hex_value(c) >= 0,
        hex_value(d) >= 0,
    ensures
        hex_number(seq![c, d]) == 16 * hex_value(c) + hex_value(d),
        0 <= hex_value(c) <= 15,
        without_prefix(seq!['0', 'x'] + seq![c, d]) == without_prefix(seq![c, d]),
{
    assert(seq![c, d].drop_last() == seq![c]);
    assert(seq![c].drop_last() == Seq::<char>::empty());
    assert(hex_number(Seq::<char>::empty()) == 0);
    assert(hex_number(seq![c]) == hex_value(c));
    assert((seq!['0', 'x'] + seq![c, d]).skip(2) == seq![c, d]);
}

/// A list of actions has a heading where a group begins: over the first entry, if its
/// group has a name, and over each whose group is not that of the entry before.
pub proof fn law_groups_have_one_heading(groups: Seq<Seq<char>>, i: int)
    requires
        0 < i < groups.len(),
    ensures
        starts_group(groups, 0) <==> groups[0].len() > 0,
        starts_group(groups, i) <==> groups[i] != groups[i - 1],
{
}

/// The hexadecimal digits are the sixteen characters that stand for 0 to 15, in either
/// case.
pub proof fn law_hex_digits(c: char)
    ensures
        '0' <= c <= '9' ==> hex_value(c) == c as int - '0' as int,
        'a' <= c <= 'f' ==> hex_value(c) == 10 + c as int - 'a' as int,
        'A' <= c <= 'F' ==> hex_value(c) == 10 + c as int - 'A' as int,
        !('0' <= c <= '9') && !('a' <= c <= 'f') && !('A' <= c <= 'F') ==> hex_value(c) < 0,
{
}

/// The line of a server that runs says where it listens and how many are connected, one
/// being a client; one that does not run says why not, where that is known.
pub proof fn law_server_line_counts_clients(s: ServerStatus)
    ensures
        s.running && s.clients == 1 ==> server_text(Some(s)) == (
            StatusTone::Good,
            "● Listening on "@ + s.addr@ + " — "@ + "1 client"@,
        ),
        s.running && s.clients != 1 ==> server_text(Some(s)) == (
            StatusTone::Good,
            "● Listening on "@ + s.addr@ + " — "@ + (decimal(s.clients as nat) + " clients"@),
        ),
        !s.running && s.error is Some ==> server_text(Some(s)) == (
            StatusTone::Bad,
            "Failed: "@ + s.error->0@,
        ),
        !s.running && s.error is None ==> server_text(Some(s)).0 == StatusTone::Plain,
        server_text(None).0 == StatusTone::Plain,
{
}

} // verus!
