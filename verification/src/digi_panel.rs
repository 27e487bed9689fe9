//! The operating panels of the digital modes: the contact in progress, the
//! keyboard modes' transmit text, and FSQ's directed messages and contacts.
use crate::command::{Command, Mode};
use crate::sort::lemma_filtered;
use crate::text::{
    begins_with, cut, decimal, eq_ignore_ascii_case, first_chars, fmt_u64, is_blank, keeps_prefix,
    same_ignoring_case, trim, trimmed, upper, upper_of,
};
use vstd::prelude::*;

verus! {

/// Characters that a free text carries on the air.
pub const FREE_TEXT_MAX: usize = 13;

/// Where the exchange with a station stands.
#[derive(Clone, Copy, Debug, PartialEq, Eq, Structural)]
pub enum QsoStep {
    Idle,
    CallingCq,
    WaitingForCq,
    TxGrid,
    TxReport,
    TxRReport,
    TxRr73,
    Tx73,
    Confirming,
    Done,
}

/// A line of the conversation.
#[derive(Debug)]
pub struct Line {
    /// Traffic of the station that was called with someone else.
    pub overheard: bool,
    /// Whether this station sent it.
    pub tx: bool,
    pub text: String,
}

/// How a line of the conversation is drawn.
#[derive(Clone, Copy, Debug, PartialEq, Eq, Structural)]
pub enum LineTone {
    Overheard,
    Sent,
    Received,
    /// The message that goes out next.
    Pending,
    /// There is nothing to show.
    Nothing,
}

/// A line of the conversation as it is shown.
#[derive(Debug)]
pub struct ShownLine {
    pub tone: LineTone,
    pub text: String,
}

/// Whether an exchange is going on, so that no CQ can be called.
pub open spec fn active_step(step: Option<QsoStep>) -> bool {
    match step {
        Some(s) => s != QsoStep::Idle && s != QsoStep::Confirming && s != QsoStep::Done,
        None => false,
    }
}

/// Whether an exchange is going on, so that no CQ can be called.
pub fn in_qso(step: Option<QsoStep>) -> (r: bool)
    ensures
        r == active_step(step),
{
    match step {
        Some(s) => s != QsoStep::Idle && s != QsoStep::Confirming && s != QsoStep::Done,
        None => false,
    }
}

/// A line as it is shown: a mark for who sent it, and the text.
pub open spec fn shows_line(s: ShownLine, l: Line) -> bool {
    if l.overheard {
        s.tone == LineTone::Overheard && s.text@ == "· "@ + l.text@
    } else if l.tx {
        s.tone == LineTone::Sent && s.text@ == "» "@ + l.text@
    } else {
        s.tone == LineTone::Received && s.text@ == "« "@ + l.text@
    }
}

/// The conversation as it is shown: each line, then the message that goes out
/// next, or a word that there is nothing.
pub open spec fn shows_conversation(
    out: Seq<ShownLine>,
    lines: Seq<Line>,
    pending: Option<String>,
) -> bool {
    &&& forall|i: int| 0 <= i < lines.len() ==> shows_line(#[trigger] out[i], lines[i])
    &&& match pending {
        Some(p) => {
            &&& out.len() == lines.len() + 1
            &&& out.last().tone == LineTone::Pending
            &&& out.last().text@ == "→ "@ + p@
        },
        None => if lines.len() == 0 {
            &&& out.len() == 1
            &&& out[0].tone == LineTone::Nothing
            &&& out[0].text@ == "— no messages —"@
        } else {
            out.len() == lines.len()
        },
    }
}

fn marked(tone: LineTone, mark: &str, text: &str) -> (r: ShownLine)
    ensures
        r.tone == tone,
        r.text@ == mark@ + text@,
{
    let mut s = mark.to_owned();
    s.append(text);
    ShownLine { tone, text: s }
}

/// The conversation as it is shown.
pub fn transcript(lines: &Vec<Line>, pending: &Option<String>) -> (r: Vec<ShownLine>)
    ensures
        shows_conversation(r@, lines@, *pending),
{
    let mut out: Vec<ShownLine> = Vec::new();
    let mut i: usize = 0;
    while i < lines.len()
        invariant
            i <= lines@.len(),
            out@.len() == i,
            forall|k: int| 0 <= k < i ==> shows_line(#[trigger] out@[k], lines@[k]),
        decreases lines@.len() - i,
    {
        let l = &lines[i];
        let s = if l.overheard {
            marked(LineTone::Overheard, "· ", l.text.as_str())
        } else if l.tx {
            marked(LineTone::Sent, "» ", l.text.as_str())
        } else {
            marked(LineTone::Received, "« ", l.text.as_str())
        };
        out.push(s);
        i = i + 1;
    }
    match pending {
        Some(p) => {
            out.push(marked(LineTone::Pending, "→ ", p.as_str()));
        },
        None => {
            if lines.len() == 0 {
                out.push(ShownLine { tone: LineTone::Nothing, text: "— no messages —".to_owned() });
            }
        },
    }
    out
}

/// A press on a message button: that message goes next. The buttons work only
/// while a station is being worked.
pub fn pick_step(has_dx: bool, step: QsoStep) -> (r: Option<Command>)
    ensures
        r == if has_dx {
            Some(Command::DigiSetStep(step))
        } else {
            None::<Command>
        },
{
    if has_dx {
        Some(Command::DigiSetStep(step))
    } else {
        None
    }
}

/// The entry for free text, which goes out in the next transmit slot.
#[derive(Debug)]
pub struct FreeText {
    pub text: String,
}

impl FreeText {
    /// No more is typed than goes out in one slot: what would be cut on the air
    /// is not taken.
    pub open spec fn wf(&self) -> bool {
        self.text@.len() <= FREE_TEXT_MAX
    }

    /// The operator typed: what goes beyond the limit is not taken.
    pub fn edit(&mut self, typed: &str)
        ensures
            final(self).wf(),
            final(self).text@ == first_chars(typed@, FREE_TEXT_MAX as int),
    {
        self.text = cut(typed, FREE_TEXT_MAX);
    }

    /// Send what was typed and empty the entry; a blank one is not sent.
    pub fn send(&mut self) -> (r: Option<Command>)
        requires
            old(self).wf(),
        ensures
            final(self).wf(),
            if trimmed(old(self).text@).len() > 0 {
                &&& r matches Some(Command::DigiSendText(t)) && t@ == old(self).text@ && t@.len()
                    <= FREE_TEXT_MAX
                &&& final(self).text@.len() == 0
            } else {
                &&& r is None
                &&& *final(self) == *old(self)
            },
    {
        if is_blank(self.text.as_str()) {
            return None;
        }
        let text = self.text.clone();
        self.text = String::new();
        Some(Command::DigiSendText(text))
    }
}

/// The operator's grid square: the engine's copy, unless it has none or is
/// blank.
pub fn my_grid(engine: &Option<String>, edited: &str) -> (r: String)
    ensures
        r@ == match engine {
            Some(g) => if g@.len() > 0 {
                g@
            } else {
                edited@
            },
            None => edited@,
        },
{
    if let Some(g) = engine {
        if !g.as_str().is_empty() {
            return g.clone();
        }
    }
    edited.to_owned()
}

/// A callsign, or a word that there is none.
pub open spec fn call_or_none(call: Seq<char>) -> Seq<char> {
    if call.len() == 0 {
        "NOCALL"@
    } else {
        call
    }
}

fn call_or_nocall(call: &str) -> (r: String)
    ensures
        r@ == call_or_none(call@),
{
    if call.is_empty() {
        "NOCALL".to_owned()
    } else {
        call.to_owned()
    }
}

/// The text of a general call in the keyboard modes.
pub open spec fn cq_text(my_call: Seq<char>) -> Seq<char> {
    let c = call_or_none(my_call);
    "CQ CQ CQ DE "@ + c + " "@ + c + " "@ + c + " PSE K\n"@
}

/// The three requests that put a text on the air from its start.
pub open spec fn sends(cmds: Seq<Command>, text: Seq<char>) -> bool {
    &&& cmds.len() == 3
    &&& cmds[0] == Command::DigiAbortTx
    &&& cmds[1] matches Command::DigiTxText(t) && t@ == text
    &&& cmds[2] == Command::DigiTxActive(true)
}

fn send_now(text: String) -> (r: Vec<Command>)
    ensures
        sends(r@, text@),
{
    let mut out: Vec<Command> = Vec::new();
    out.push(Command::DigiAbortTx);
    out.push(Command::DigiTxText(text));
    out.push(Command::DigiTxActive(true));
    out
}

/// A text once it was edited: as edited, if the characters that have gone out
/// stay, else as it was.
pub open spec fn text_after(text: Seq<char>, edited: Seq<char>, sent: int) -> Seq<char> {
    if begins_with(edited, first_chars(text, sent)) {
        edited
    } else {
        text
    }
}

/// The transmit text of the keyboard modes. It is streamed to the engine, which
/// reports back how many characters have gone out.
#[derive(Debug)]
pub struct TextTx {
    pub text: String,
}

impl TextTx {
    /// The operator edited the text, of which `sent` characters have gone out.
    /// An edit that would change those is undone.
    pub fn edit(&mut self, edited: &str, sent: usize) -> (r: Command)
        ensures
            final(self).text@ == text_after(old(self).text@, edited@, sent as int),
            r matches Command::DigiTxText(t) && t@ == final(self).text@,
    {
        if keeps_prefix(edited, self.text.as_str(), sent) {
            self.text = edited.to_owned();
        }
        Command::DigiTxText(self.text.clone())
    }

    /// Call CQ: the text is the call, and it goes out at once.
    pub fn call_cq(&mut self, my_call: &str) -> (r: Vec<Command>)
        ensures
            final(self).text@ == cq_text(my_call@),
            sends(r@, cq_text(my_call@)),
    {
        let call = call_or_nocall(my_call);
        let mut cq = "CQ CQ CQ DE ".to_owned();
        cq.append(call.as_str());
        cq.append(" ");
        cq.append(call.as_str());
        cq.append(" ");
        cq.append(call.as_str());
        cq.append(" PSE K\n");
        self.text = cq.clone();
        send_now(cq)
    }

    /// Throw the text away and stop sending.
    pub fn clear(&mut self) -> (r: Vec<Command>)
        ensures
            final(self).text@.len() == 0,
            r@.len() == 2,
            r@[0] == Command::DigiAbortTx,
            r@[1] matches Command::DigiTxText(t) && t@.len() == 0,
    {
        self.text = String::new();
        let mut out: Vec<Command> = Vec::new();
        out.push(Command::DigiAbortTx);
        out.push(Command::DigiTxText(String::new()));
        out
    }
}

/// Whatever the operator types, the characters that have gone out stay.
pub proof fn law_sent_text_is_kept(text: Seq<char>, edited: Seq<char>, sent: int)
    requires
        0 <= sent,
    ensures
        begins_with(text_after(text, edited, sent), first_chars(text, sent)),
{
    let prefix = first_chars(text, sent);
    assert(text.take(prefix.len() as int) =~= prefix);
}

/// A station in the contacts book.
#[derive(Debug)]
pub struct FsqContact {
    pub id: u64,
    pub call: String,
    pub name: String,
    pub note: String,
}

/// A directed message that was received.
#[derive(Debug)]
pub struct FsqMessage {
    pub from: String,
    pub to: String,
    pub text: String,
    /// Whether it is addressed to this station.
    pub to_me: bool,
}

/// FSQ's directed messages.
#[derive(Debug)]
pub struct Fsq {
    /// The station that messages go to; none means everyone.
    pub target: String,
    /// The message being typed.
    pub text: String,
    pub contacts: Vec<FsqContact>,
    /// The callsign being typed in for the contacts book.
    pub new_contact: String,
    pub show_contacts: bool,
}

/// The callsign that directed messages carry: the one set for them, else the
/// operator's.
pub fn fsq_own_call(fsq_call: &str, my_call: &str) -> (r: String)
    ensures
        r@ == if fsq_call@.len() > 0 {
            fsq_call@
        } else {
            my_call@
        },
{
    if !fsq_call.is_empty() {
        fsq_call.to_owned()
    } else {
        my_call.to_owned()
    }
}

/// A message as it goes on the air.
pub open spec fn fsq_text(own: Seq<char>, target: Seq<char>, body: Seq<char>) -> Seq<char> {
    if target.len() == 0 {
        call_or_none(own) + ": "@ + trimmed(body) + "\n"@
    } else {
        call_or_none(own) + ":"@ + target + " "@ + trimmed(body) + "\n"@
    }
}

/// The question whom a station hears, as it goes on the air.
pub open spec fn fsq_query(own: Seq<char>, target: Seq<char>) -> Seq<char> {
    call_or_none(own) + ":"@ + target + "?\n"@
}

/// The largest id in a contacts book.
pub open spec fn max_contact_id(v: Seq<FsqContact>) -> nat
    decreases v.len(),
{
    if v.len() == 0 {
        0
    } else {
        let m = max_contact_id(v.drop_last());
        if v.last().id > m {
            v.last().id as nat
        } else {
            m
        }
    }
}

/// The contacts but the one with an id.
pub open spec fn contacts_without(v: Seq<FsqContact>, id: u64) -> Seq<FsqContact> {
    v.filter(not_id(id))
}

/// Whether a contact has another id.
pub open spec fn not_id(id: u64) -> spec_fn(FsqContact) -> bool {
    |c: FsqContact| c.id != id
}

impl Fsq {
    /// Everything but the text.
    pub open spec fn same_book(&self, o: &Fsq) -> bool {
        &&& self.target == o.target
        &&& self.contacts == o.contacts
        &&& self.new_contact == o.new_contact
        &&& self.show_contacts == o.show_contacts
    }

    /// Send the message to the target, or to everyone, and empty the entry. A
    /// blank message is not sent.
    pub fn send(&mut self, own_call: &str) -> (r: Vec<Command>)
        ensures
            final(self).same_book(old(self)),
            if trimmed(old(self).text@).len() > 0 {
                &&& sends(r@, fsq_text(own_call@, old(self).target@, old(self).text@))
                &&& final(self).text@.len() == 0
            } else {
                &&& r@.len() == 0
                &&& final(self).text == old(self).text
            },
    {
        if is_blank(self.text.as_str()) {
            return Vec::new();
        }
        let body = trim(self.text.as_str());
        let mut full = call_or_nocall(own_call);
        if self.target.as_str().is_empty() {
            full.append(": ");
        } else {
            full.append(":");
            full.append(self.target.as_str());
            full.append(" ");
        }
        full.append(body.as_str());
        full.append("\n");
        assert(full@ =~= fsq_text(own_call@, self.target@, self.text@));
        self.text = String::new();
        send_now(full)
    }

    /// Ask the target whom it hears; without a target there is no one to ask.
    pub fn ask_heard(&self, own_call: &str) -> (r: Vec<Command>)
        ensures
            if self.target@.len() > 0 {
                sends(r@, fsq_query(own_call@, self.target@))
            } else {
                r@.len() == 0
            },
    {
        if self.target.as_str().is_empty() {
            return Vec::new();
        }
        let mut full = call_or_nocall(own_call);
        full.append(":");
        full.append(self.target.as_str());
        full.append("?\n");
        send_now(full)
    }

    /// Send a picture that was picked, in place of whatever is being sent.
    pub fn send_image(&self, file: Vec<u8>) -> (r: Vec<Command>)
        ensures
            r@.len() == 2,
            r@[0] == Command::DigiAbortTx,
            r@[1] == Command::DigiImageTx(file),
    {
        let mut out: Vec<Command> = Vec::new();
        out.push(Command::DigiAbortTx);
        out.push(Command::DigiImageTx(file));
        out
    }

    /// Throw the message away and stop sending.
    pub fn clear(&mut self) -> (r: Command)
        ensures
            final(self).same_book(old(self)),
            final(self).text@.len() == 0,
            r == Command::DigiAbortTx,
    {
        self.text = String::new();
        Command::DigiAbortTx
    }

    /// Who the message is for, as the panel says it.
    pub fn target_label(&self) -> (r: String)
        ensures
            r@ == if self.target@.len() == 0 {
                "ALLCALL"@
            } else {
                self.target@
            },
    {
        if self.target.as_str().is_empty() {
            "ALLCALL".to_owned()
        } else {
            self.target.clone()
        }
    }

    /// Whether a heard station is the target.
    pub fn is_target(&self, call: &str) -> (r: bool)
        ensures
            r == same_ignoring_case(self.target@, call@),
    {
        eq_ignore_ascii_case(self.target.as_str(), call)
    }

    /// Address messages to a station, or to everyone.
    pub fn set_target(&mut self, call: &str)
        ensures
            final(self).target@ == call@,
            final(self).text == old(self).text,
            final(self).contacts == old(self).contacts,
            final(self).new_contact == old(self).new_contact,
            final(self).show_contacts == old(self).show_contacts,
    {
        self.target = call.to_owned();
    }

    /// Put the callsign that was typed into the contacts book, in upper case and
    /// under a fresh id. Returns whether the book is to be saved.
    pub fn add_contact(&mut self) -> (persist: bool)
        requires
            trimmed(old(self).new_contact@).len() > 0 ==> max_contact_id(old(self).contacts@)
                < u64::MAX,
        ensures
            final(self).target == old(self).target,
            final(self).text == old(self).text,
            final(self).show_contacts == old(self).show_contacts,
            persist == (trimmed(old(self).new_contact@).len() > 0),
            if persist {
                let v = final(self).contacts@;
                &&& v.len() == old(self).contacts@.len() + 1
                &&& v.drop_last() == old(self).contacts@
                &&& v.last().id == max_contact_id(old(self).contacts@) + 1
                &&& v.last().call@ == upper_of(trimmed(old(self).new_contact@))
                &&& v.last().name@.len() == 0
                &&& v.last().note@.len() == 0
                &&& final(self).new_contact@.len() == 0
            } else {
                &&& final(self).contacts == old(self).contacts
                &&& final(self).new_contact == old(self).new_contact
            },
    {
        if is_blank(self.new_contact.as_str()) {
            return false;
        }
        let mut max: u64 = 0;
        let mut i: usize = 0;
        assert(self.contacts@.take(0) =~= Seq::<FsqContact>::empty());
        while i < self.contacts.len()
            invariant
                *self == *old(self),
                i <= self.contacts@.len(),
                max == max_contact_id(self.contacts@.take(i as int)),
            decreases self.contacts@.len() - i,
        {
            assert(self.contacts@.take(i + 1).drop_last() =~= self.contacts@.take(i as int));
            if self.contacts[i].id > max {
                max = self.contacts[i].id;
            }
            i = i + 1;
        }
        assert(self.contacts@.take(i as int) =~= self.contacts@);
        let call = upper(trim(self.new_contact.as_str()).as_str());
        self.contacts.push(
            FsqContact { id: max + 1, call, name: String::new(), note: String::new() },
        );
        assert(self.contacts@.drop_last() =~= old(self).contacts@);
        self.new_contact = String::new();
        true
    }

    /// Delete a contact. The book is to be saved afterwards.
    pub fn delete_contact(&mut self, id: u64)
        ensures
            final(self).target == old(self).target,
            final(self).text == old(self).text,
            final(self).new_contact == old(self).new_contact,
            final(self).show_contacts == old(self).show_contacts,
            final(self).contacts@ == contacts_without(old(self).contacts@, id),
    {
        let ghost start = self.contacts@;
        let ghost mut done: int = 0;
        let mut i: usize = 0;
        proof {
            reveal(Seq::filter);
            assert(start.take(0) =~= Seq::<FsqContact>::empty());
            assert(start.skip(0) =~= start);
        }
        while i < self.contacts.len()
            invariant
                0 <= done <= start.len(),
                i <= self.contacts@.len(),
                self.contacts@ == contacts_without(start.take(done), id) + start.skip(done),
                i == contacts_without(start.take(done), id).len(),
                self.target == old(self).target,
                self.text == old(self).text,
                self.new_contact == old(self).new_contact,
                self.show_contacts == old(self).show_contacts,
            decreases self.contacts@.len() - i,
        {
            proof {
                reveal(Seq::filter);
                assert(start.take(done + 1).drop_last() =~= start.take(done));
                assert(self.contacts@[i as int] == start[done]);
            }
            let ghost kept = contacts_without(start.take(done), id);
            if self.contacts[i].id == id {
                self.contacts.remove(i);
                assert(self.contacts@ =~= kept + start.skip(done + 1));
            } else {
                assert(kept + start.skip(done) =~= kept.push(start[done]) + start.skip(done + 1));
                i = i + 1;
            }
            proof {
                done = done + 1;
            }
        }
        assert(start.take(done) =~= start);
    }
}

/// The messages that the panel lists above the received text: those for this
/// station that name whom they are for.
pub open spec fn starred(ms: Seq<FsqMessage>, n: int) -> Seq<Seq<char>>
    decreases n,
{
    if n <= 0 {
        seq![]
    } else {
        let rest = starred(ms, n - 1);
        let m = ms[n - 1];
        if m.to_me && m.to@.len() > 0 {
            rest.push("★ "@ + m.from@ + " → "@ + m.to@ + ": "@ + m.text@)
        } else {
            rest
        }
    }
}

/// The messages that the panel lists above the received text.
pub fn starred_messages(ms: &Vec<FsqMessage>) -> (r: Vec<String>)
    ensures
        crate::text::views(r@) == starred(ms@, ms@.len() as int),
{
    let mut out: Vec<String> = Vec::new();
    let mut i: usize = 0;
    assert(crate::text::views(out@) =~= starred(ms@, 0));
    while i < ms.len()
        invariant
            i <= ms@.len(),
            crate::text::views(out@) == starred(ms@, i as int),
        decreases ms@.len() - i,
    {
        let m = &ms[i];
        let ghost before = out@;
        if m.to_me && !m.to.as_str().is_empty() {
            let mut s = "★ ".to_owned();
            s.append(m.from.as_str());
            s.append(" → ");
            s.append(m.to.as_str());
            s.append(": ");
            s.append(m.text.as_str());
            let ghost text = s@;
            out.push(s);
            assert(crate::text::views(out@) =~= crate::text::views(before).push(text));
        }
        i = i + 1;
    }
    out
}

/// The line of the station card about the transmit slots, given the audio
/// frequency in hertz as text.
pub fn slot_line(audio_hz: &str, tx_even: bool) -> (r: String)
    ensures
        r@ == audio_hz@ + " Hz · "@ + (if tx_even {
            "even"@
        } else {
            "odd"@
        }) + " slots"@,
{
    let mut t = audio_hz.to_owned();
    t.append(" Hz · ");
    t.append(
        if tx_even {
            "even"
        } else {
            "odd"
        },
    );
    t.append(" slots");
    t
}

/// The line of the station card about the way to the station: its distance and
/// bearing as text. Both grids have to be known, and to be places.
pub fn path_line(my_grid: &str, dx_grid: &Option<String>, path: Option<(&str, &str)>) -> (r:
    Option<String>)
    ensures
        match r {
            Some(t) => my_grid@.len() > 0 && dx_grid is Some && (path matches Some(p) && t@ == p.0@
                + " km · "@ + p.1@ + "°"@),
            None => my_grid@.len() == 0 || dx_grid is None || path is None,
        },
{
    if my_grid.is_empty() || dx_grid.is_none() {
        return None;
    }
    match path {
        Some((km, bearing)) => {
            let mut t = km.to_owned();
            t.append(" km · ");
            t.append(bearing);
            t.append("°");
            Some(t)
        },
        None => None,
    }
}

/// What the station card says instead of a station; nothing while one is worked.
pub fn card_note(engine: bool, has_dx: bool) -> (r: Option<&'static str>)
    ensures
        match r {
            Some(t) => (!engine || !has_dx) && t@ == if engine {
                "no active QSO — pick a decode to reply, or Call CQ"@
            } else {
                "FT8 engine idle"@
            },
            None => engine && has_dx,
        },
{
    if !engine {
        Some("FT8 engine idle")
    } else if !has_dx {
        Some("no active QSO — pick a decode to reply, or Call CQ")
    } else {
        None
    }
}

/// The head of the contact area. The log can be exported when it holds anything.
pub fn session_line(logged: usize) -> (r: (String, bool))
    ensures
        r.0@ == "Session: "@ + decimal(logged as nat) + " QSO"@,
        r.1 == (logged > 0),
{
    let mut t = "Session: ".to_owned();
    t.append(fmt_u64(logged as u64).as_str());
    t.append(" QSO");
    (t, logged > 0)
}

/// A press on the button that calls CQ, which works only between contacts.
pub fn press_cq(step: Option<QsoStep>) -> (r: Option<Command>)
    ensures
        r == if active_step(step) {
            None::<Command>
        } else {
            Some(Command::DigiCallCq)
        },
{
    if in_qso(step) {
        None
    } else {
        Some(Command::DigiCallCq)
    }
}

/// A press on the transmit button of the keyboard modes.
pub fn press_text_tx(tx_on: bool) -> (r: Command)
    ensures
        r == Command::DigiTxActive(!tx_on),
{
    Command::DigiTxActive(!tx_on)
}

/// The lowest and the highest audio frequency, and a step of the tuning buttons,
/// in thousandths of a hertz.
pub const AUDIO_MIN: i64 = 200_000;

pub const AUDIO_MAX: i64 = 3_500_000;

pub const AUDIO_STEP: i64 = 10_000;

/// An audio frequency a step up or down, within the lowest and the highest.
pub open spec fn nudged(audio: int, up: bool) -> int {
    let to = if up {
        audio + AUDIO_STEP
    } else {
        audio - AUDIO_STEP
    };
    if to < AUDIO_MIN {
        AUDIO_MIN as int
    } else if to > AUDIO_MAX {
        AUDIO_MAX as int
    } else {
        to
    }
}

/// The audio frequency after a press on a tuning button.
pub fn nudge_audio(audio: i64, up: bool) -> (r: i64)
    ensures
        r == nudged(audio as int, up),
{
    let to: i128 = if up {
        audio as i128 + AUDIO_STEP as i128
    } else {
        audio as i128 - AUDIO_STEP as i128
    };
    if to < AUDIO_MIN as i128 {
        AUDIO_MIN
    } else if to > AUDIO_MAX as i128 {
        AUDIO_MAX
    } else {
        to as i64
    }
}

/// Whether a keyboard mode has settings of its own in its panel.
pub fn has_params(mode: Mode) -> (r: bool)
    ensures
        r == (mode == Mode::Rtty || mode == Mode::Olivia || mode == Mode::Thor),
{
    match mode {
        Mode::Rtty | Mode::Olivia | Mode::Thor => true,
        _ => false,
    }
}

/// The title of the settings of a digital mode.
pub fn setup_title(text_modem: bool, label: &str) -> (r: String)
    ensures
        r@ == if text_modem {
            label@ + " Setup"@
        } else {
            "FT8 / FT4 Setup"@
        },
{
    if text_modem {
        let mut t = label.to_owned();
        t.append(" Setup");
        t
    } else {
        "FT8 / FT4 Setup".to_owned()
    }
}

/// An edit that leaves the characters that have gone out as they are is taken as it
/// is, and one that does not changes nothing.
pub proof fn law_edits_behind_what_was_sent_are_taken(
    text: Seq<char>,
    edited: Seq<char>,
    sent: int,
)
    requires
        0 <= sent <= text.len(),
    ensures
        ({
            let keeps = edited.len() >= sent && forall|i: int|
                0 <= i < sent ==> #[trigger] edited[i] == text[i];
            &&& keeps ==> text_after(text, edited, sent) == edited
            &&& !keeps ==> text_after(text, edited, sent) == text
        }),
{
    let p = first_chars(text, sent);
    assert(p.len() == sent);
    assert(forall|i: int| 0 <= i < sent ==> p[i] == text[i]);
    if edited.len() >= sent {
        if forall|i: int| 0 <= i < sent ==> #[trigger] edited[i] == text[i] {
            assert(edited.take(sent) == p);
        } else {
            let i = choose|i: int| 0 <= i < sent && !(#[trigger] edited[i] == text[i]);
            assert(edited.take(sent)[i] == edited[i]);
            assert(edited.take(sent) != p);
        }
    }
}

/// A new station in the contacts book has an id that no other has.
pub proof fn law_contact_ids_are_fresh(v: Seq<FsqContact>, i: int)
    requires
        0 <= i < v.len(),
    ensures
        v[i].id < max_contact_id(v) + 1,
        exists|k: int| 0 <= k < v.len() && (#[trigger] v[k]).id == max_contact_id(v) || max_contact_id(
            v,
        ) == 0,
    decreases v.len(),
{
    let t = v.drop_last();
    assert(v[v.len() - 1] == v.last());
    if t.len() > 0 {
        law_contact_ids_are_fresh(t, if i < t.len() { i } else { 0 });
        if max_contact_id(t) > 0 {
            let k = choose|k: int| 0 <= k < t.len() && (#[trigger] t[k]).id == max_contact_id(t);
            assert(v[k].id == max_contact_id(t));
        }
    } else {
        assert(max_contact_id(t) == 0);
    }
}

/// Deleting a contact takes those with its id out of the book and leaves the others.
pub proof fn law_deleted_contacts_go(v: Seq<FsqContact>, id: u64, c: FsqContact)
    ensures
        contacts_without(v, id).contains(c) <==> v.contains(c) && c.id != id,
{
    lemma_filtered(v, not_id(id), c);
}

/// The messages above the received text are those for this station that say whom
/// they are for, in the order in which they came.
pub proof fn law_starred_messages_are_for_this_station(ms: Seq<FsqMessage>, n: int)
    requires
        0 <= n < ms.len(),
    ensures
        starred(ms, 0) == Seq::<Seq<char>>::empty(),
        starred(ms, n + 1).len() == starred(ms, n).len() + if ms[n].to_me && ms[n].to@.len() > 0 {
            1int
        } else {
            0
        },
        starred(ms, n + 1).take(starred(ms, n).len() as int) == starred(ms, n),
{
}

/// No CQ is called while a station is called or worked: it can be called only before
/// an exchange begins, once it is done, and while its confirmation is awaited.
pub proof fn law_cq_waits_for_the_exchange(step: QsoStep)
    ensures
        !active_step(None),
        !active_step(Some(step)) <==> step == QsoStep::Idle || step == QsoStep::Done || step
            == QsoStep::Confirming,
{
}

/// A press moves the audio frequency by ten hertz, and a press the other way undoes
/// it, from 200 to 3500 Hz; beyond those it does not go.
pub proof fn law_tuning_buttons_step_by_ten_hertz(audio: int)
    ensures
        200_000 <= nudged(audio, true) <= 3_500_000,
        200_000 <= nudged(audio, false) <= 3_500_000,
        200_000 <= audio <= 3_490_000 ==> nudged(audio, true) == audio + 10_000 && nudged(
            nudged(audio, true),
            false,
        ) == audio,
        210_000 <= audio <= 3_500_000 ==> nudged(audio, false) == audio - 10_000,
        audio <= 200_000 ==> nudged(audio, false) == 200_000,
        audio >= 3_500_000 ==> nudged(audio, true) == 3_500_000,
{
}

/// A text goes on the air from its start: what was being sent is broken off, the text
/// is handed over, and only then is the transmitter switched on.
pub proof fn law_texts_go_out_from_their_start(cmds: Seq<Command>, text: Seq<char>)
    requires
        sends(cmds, text),
    ensures
        cmds.len() == 3,
        cmds[0] == Command::DigiAbortTx,
        cmds[1] matches Command::DigiTxText(t) && t@ == text,
        cmds[2] == Command::DigiTxActive(true),
{
}

/// A general call gives the station's call three times, and a directed message and a
/// question begin with the sender's, so that nothing goes out without one.
pub proof fn law_transmissions_name_the_sender(
    call: Seq<char>,
    target: Seq<char>,
    body: Seq<char>,
    i: int,
)
    requires
        call.len() > 0,
        0 <= i < call.len(),
    ensures
        ({
            let n = call.len() as int;
            let cq = cq_text(call);
            let head = "CQ CQ CQ DE "@.len() as int;
            let gap = " "@.len() as int;
            &&& cq[head + i] == call[i]
            &&& cq[head + n + gap + i] == call[i]
            &&& cq[head + n + gap + n + gap + i] == call[i]
            &&& fsq_text(call, target, body)[i] == call[i]
            &&& fsq_query(call, target)[i] == call[i]
        }),
{
}

/// A free text has at most the thirteen characters that go out in a slot.
pub proof fn law_free_text_fits_a_slot(f: FreeText, typed: Seq<char>)
    ensures
        f.wf() <==> f.text@.len() <= 13,
        first_chars(typed, FREE_TEXT_MAX as int).len() <= 13,
        typed.len() <= 13 ==> first_chars(typed, FREE_TEXT_MAX as int) == typed,
        typed.len() >= 13 ==> first_chars(typed, FREE_TEXT_MAX as int) == typed.take(13),
{
    assert(typed.take(typed.len() as int) == typed);
}

/// The conversation shows every line in its order, marked as overheard, sent or
/// received, and with its text at its end; behind them stands what goes out next. Only
/// where there is neither a line nor such a message does it say that there is nothing.
pub proof fn law_conversation_shows_every_line(
    out: Seq<ShownLine>,
    lines: Seq<Line>,
    pending: Option<String>,
    i: int,
)
    requires
        shows_conversation(out, lines, pending),
        0 <= i < lines.len(),
    ensures
        out.len() == lines.len() + if pending is Some {
            1int
        } else {
            0
        },
        out[i].tone == if lines[i].overheard {
            LineTone::Overheard
        } else if lines[i].tx {
            LineTone::Sent
        } else {
            LineTone::Received
        },
        out[i].text@.skip(out[i].text@.len() - lines[i].text@.len()) == lines[i].text@,
        pending matches Some(p) ==> out.last().tone == LineTone::Pending && out.last().text@.skip(
            out.last().text@.len() - p@.len(),
        ) == p@,
{
    assert(shows_line(out[i], lines[i]));
}

/// A conversation that has not begun says so, in one line.
pub proof fn law_empty_conversation_says_so(out: Seq<ShownLine>, pending: Option<String>)
    requires
        shows_conversation(out, Seq::empty(), pending),
    ensures
        out.len() == 1,
        pending is None ==> out[0].tone == LineTone::Nothing && out[0].text@ == "— no messages —"@,
        pending is Some ==> out[0].tone == LineTone::Pending,
{
}

} // verus!
