//! The shared output model: locations, messages and the report.

use vstd::prelude::*;

verus! {

/// A position in a source file.
#[derive(Debug, PartialEq, Eq, Clone, Hash)]
pub struct Location {
    /// File path
    pub path: String,
    /// Line, counted from 1; 0 where unknown
    pub row: usize,
    /// Column, counted from 1; 0 where unknown
    pub col: usize,
}

/// What a `Location` holds, as mathematical values.
pub struct LocationView {
    pub path: Seq<char>,
    pub row: usize,
    pub col: usize,
}

impl View for Location {
    type V = LocationView;

    open spec fn view(&self) -> LocationView {
        LocationView { path: self.path@, row: self.row, col: self.col }
    }
}

/// One diagnostic: its text and the places it refers to.
#[derive(Debug, PartialEq, Eq, Clone, Hash)]
pub struct Message {
    /// The description of the error
    pub error: String,
    /// All relevant file references of the error
    pub locations: Vec<Location>,
}

/// What a `Message` holds, as mathematical values.
pub struct MessageView {
    pub error: Seq<char>,
    pub locations: Seq<LocationView>,
}

impl View for Message {
    type V = MessageView;

    open spec fn view(&self) -> MessageView {
        MessageView { error: self.error@, locations: self.locations@.map_values(|l: Location| l@) }
    }
}

/// The views of a list of messages.
pub open spec fn messages_view(s: Seq<Message>) -> Seq<MessageView> {
    s.map_values(|m: Message| m@)
}

/// The views of a list of locations.
pub open spec fn locations_view(s: Seq<Location>) -> Seq<LocationView> {
    s.map_values(|l: Location| l@)
}

/// A location from its parts.
pub open spec fn location(path: Seq<char>, row: usize, col: usize) -> LocationView {
    LocationView { path, row, col }
}

/// A message that refers to exactly one location.
pub open spec fn message_at(error: Seq<char>, loc: LocationView) -> MessageView {
    MessageView { error, locations: seq![loc] }
}

/// No message, or one.
pub open spec fn opt_msgs(m: Option<MessageView>) -> Seq<MessageView> {
    match m {
        Some(x) => seq![x],
        None => Seq::empty(),
    }
}

/// The view of an optional message.
pub open spec fn opt_message_view(m: Option<Message>) -> Option<MessageView> {
    match m {
        Some(x) => Some(x@),
        None => None,
    }
}

/// The view of an optional location.
pub open spec fn opt_location_view(l: Option<Location>) -> Option<LocationView> {
    match l {
        Some(x) => Some(x@),
        None => None,
    }
}

/// `path` taken relative to the directory `dir`.
pub open spec fn qualify(dir: Seq<char>, path: Seq<char>) -> Seq<char> {
    dir + seq!['/'] + path
}

/// A location from its parts.
pub fn new_location(path: &[char], row: usize, col: usize) -> (r: Location)
    ensures
        r@ == location(path@, row, col),
{
    Location { path: crate::text::string_of(path), row, col }
}

/// A message that refers to exactly one location.
pub fn single(error: &[char], loc: Location) -> (r: Message)
    ensures
        r@ == message_at(error@, loc@),
{
    let mut locations: Vec<Location> = Vec::new();
    locations.push(loc);
    let r = Message { error: crate::text::string_of(error), locations };
    assert(r@.locations =~= seq![loc@]);
    r
}

/// `path` taken relative to the directory `dir`.
pub fn qualified(dir: &[char], path: &[char]) -> (r: Vec<char>)
    ensures
        r@ == qualify(dir@, path@),
{
    let v = crate::text::concat(dir, &['/']);
    assert(['/']@ =~= seq!['/']);
    let w = crate::text::concat(v.as_slice(), path);
    w
}

/// Adds a message at the end of `out`.
pub fn push_message(out: &mut Vec<Message>, m: Message)
    ensures
        messages_view(final(out)@) == messages_view(old(out)@).push(m@),
{
    out.push(m);
    assert(messages_view(final(out)@) =~= messages_view(old(out)@).push(m@));
}

/// Adds a message, if there is one, at the end of `out`.
pub fn push_found(out: &mut Vec<Message>, m: Option<Message>)
    ensures
        messages_view(final(out)@) == messages_view(old(out)@) + opt_msgs(opt_message_view(m)),
{
    match m {
        Some(m) => {
            push_message(out, m);
            assert(messages_view(final(out)@) =~= messages_view(old(out)@) + opt_msgs(
                opt_message_view(Some(m)),
            ));
        },
        None => {
            assert(messages_view(old(out)@) =~= messages_view(old(out)@) + opt_msgs(
                opt_message_view(m),
            ));
        },
    }
}

/// The result of analysing one log.
#[derive(Debug, PartialEq, Eq)]
pub struct AnalyseReport {
    /// Where the log came from
    pub source: String,
    /// The project that the paths belong to
    pub project: String,
    /// When the analysis ran, in milliseconds since the Unix epoch
    pub date: i64,
    /// The messages, in the order of the log
    pub errors: Vec<Message>,
}

/// The character of a decimal digit.
pub open spec fn digit_char(d: nat) -> char {
    if d == 0 {
        '0'
    } else if d == 1 {
        '1'
    } else if d == 2 {
        '2'
    } else if d == 3 {
        '3'
    } else if d == 4 {
        '4'
    } else if d == 5 {
        '5'
    } else if d == 6 {
        '6'
    } else if d == 7 {
        '7'
    } else if d == 8 {
        '8'
    } else {
        '9'
    }
}

/// `n` in decimal.
pub open spec fn decimal(n: nat) -> Seq<char>
    decreases n,
{
    if n < 10 {
        seq![digit_char(n)]
    } else {
        decimal(n / 10) + seq![digit_char(n % 10)]
    }
}

/// `path:row:col`.
pub open spec fn location_text(l: LocationView) -> Seq<char> {
    l.path + seq![':'] + decimal(l.row as nat) + seq![':'] + decimal(l.col as nat)
}

/// `path:row:col|error` of the first location; nothing without one.
pub open spec fn message_text(m: MessageView) -> Seq<char> {
    if m.locations.len() == 0 {
        Seq::empty()
    } else {
        location_text(m.locations[0]) + seq!['|'] + m.error
    }
}

/// One line for each message that has a location.
pub open spec fn report_text(ms: Seq<MessageView>) -> Seq<char>
    decreases ms.len(),
{
    if ms.len() == 0 {
        Seq::empty()
    } else {
        report_text(ms.drop_last()) + if ms.last().locations.len() > 0 {
            message_text(ms.last()) + seq!['\n']
        } else {
            Seq::empty()
        }
    }
}

fn digit_of(d: usize) -> (r: char)
    requires
        d < 10,
    ensures
        r == digit_char(d as nat),
{
    if d == 0 {
        '0'
    } else if d == 1 {
        '1'
    } else if d == 2 {
        '2'
    } else if d == 3 {
        '3'
    } else if d == 4 {
        '4'
    } else if d == 5 {
        '5'
    } else if d == 6 {
        '6'
    } else if d == 7 {
        '7'
    } else if d == 8 {
        '8'
    } else {
        '9'
    }
}

/// `n` in decimal.
pub fn decimal_of(n: usize) -> (r: Vec<char>)
    ensures
        r@ == decimal(n as nat),
    decreases n,
{
    if n < 10 {
        let mut v: Vec<char> = Vec::new();
        v.push(digit_of(n));
        assert(v@ =~= seq![digit_char(n as nat)]);
        v
    } else {
        let mut v = decimal_of(n / 10);
        v.push(digit_of(n % 10));
        v
    }
}

fn location_chars(l: &Location) -> (r: Vec<char>)
    ensures
        r@ == location_text(l@),
{
    let path = crate::text::chars_of(l.path.as_str());
    let colon = [':'];
    assert(colon@ =~= seq![':']);
    let a = crate::text::concat(path.as_slice(), colon.as_slice());
    let row = decimal_of(l.row);
    let b = crate::text::concat(a.as_slice(), row.as_slice());
    let c = crate::text::concat(b.as_slice(), colon.as_slice());
    let col = decimal_of(l.col);
    crate::text::concat(c.as_slice(), col.as_slice())
}

fn message_chars(m: &Message) -> (r: Vec<char>)
    ensures
        r@ == message_text(m@),
{
    if m.locations.len() == 0 {
        return Vec::new();
    }
    let a = location_chars(&m.locations[0]);
    let bar = ['|'];
    assert(bar@ =~= seq!['|']);
    let b = crate::text::concat(a.as_slice(), bar.as_slice());
    let error = crate::text::chars_of(m.error.as_str());
    crate::text::concat(b.as_slice(), error.as_slice())
}

impl Location {
    /// `path:row:col`.
    pub fn to_string(&self) -> (r: String)
        ensures
            r@ == location_text(self@),
    {
        crate::text::string_of(location_chars(self).as_slice())
    }
}

impl Message {
    /// `path:row:col|error` of the first location; empty without one.
    pub fn to_string(&self) -> (r: String)
        ensures
            r@ == message_text(self@),
    {
        crate::text::string_of(message_chars(self).as_slice())
    }
}

impl AnalyseReport {
    /// One line `path:row:col|error` for each message that has a location.
    pub fn to_string(&self) -> (r: String)
        ensures
            r@ == report_text(messages_view(self.errors@)),
    {
        let mut out: Vec<char> = Vec::new();
        let mut i: usize = 0;
        while i < self.errors.len()
            invariant
                i <= self.errors.len(),
                out@ == report_text(messages_view(self.errors@).subrange(0, i as int)),
            decreases self.errors.len() - i,
        {
            let m = &self.errors[i];
            assert(messages_view(self.errors@).subrange(0, i + 1).drop_last() =~= messages_view(
                self.errors@,
            ).subrange(0, i as int));
            if m.locations.len() > 0 {
                let line = message_chars(m);
                out = crate::text::concat(out.as_slice(), line.as_slice());
                out.push('\n');
            }
            i += 1;
            assert(out@ =~= report_text(messages_view(self.errors@).subrange(0, i as int)));
        }
        assert(messages_view(self.errors@).subrange(0, i as int) =~= messages_view(self.errors@));
        crate::text::string_of(out.as_slice())
    }
}

} // verus!
