use vstd::prelude::*;

use crate::decimal::{decimal_digits, decimal_string};

verus! {

/// A terminal foreground colour given by its red, green and blue parts.
#[derive(Clone, Copy, Debug, PartialEq, Eq, Structural)]
pub struct Rgb {
    pub r: u8,
    pub g: u8,
    pub b: u8,
}

/// How quickly a connection completed.
#[derive(Clone, Copy, Debug, PartialEq, Eq, Structural)]
pub enum LatencyTier {
    /// Under 100 ms.
    Fast,
    /// From 100 ms to 149 ms.
    Moderate,
    /// 150 ms or more.
    Slow,
}

pub open spec fn tier_of(millis: nat) -> LatencyTier {
    if millis <= 99 {
        LatencyTier::Fast
    } else if millis <= 149 {
        LatencyTier::Moderate
    } else {
        LatencyTier::Slow
    }
}

pub open spec fn green() -> Rgb {
    Rgb { r: 6, g: 156, b: 86 }
}

pub open spec fn orange() -> Rgb {
    Rgb { r: 255, g: 152, b: 14 }
}

pub open spec fn red() -> Rgb {
    Rgb { r: 211, g: 33, b: 44 }
}

pub open spec fn tier_color(tier: LatencyTier) -> Rgb {
    match tier {
        LatencyTier::Fast => green(),
        LatencyTier::Moderate => orange(),
        LatencyTier::Slow => red(),
    }
}

impl LatencyTier {
    /// The colour in which a connection of this tier is reported.
    pub fn color(self) -> (c: Rgb)
        ensures
            c == tier_color(self),
    {
        match self {
            LatencyTier::Fast => Rgb { r: 6, g: 156, b: 86 },
            LatencyTier::Moderate => Rgb { r: 255, g: 152, b: 14 },
            LatencyTier::Slow => Rgb { r: 211, g: 33, b: 44 },
        }
    }
}

/// The tier of a connection that took `millis` milliseconds.
pub fn latency_tier(millis: u128) -> (t: LatencyTier)
    ensures
        t == tier_of(millis as nat),
{
    if millis <= 99 {
        LatencyTier::Fast
    } else if millis <= 149 {
        LatencyTier::Moderate
    } else {
        LatencyTier::Slow
    }
}

/// The colour of a connection that took `millis` milliseconds: green below
/// 100, orange below 150, red from there on.
pub fn latency_color(millis: u128) -> (c: Rgb)
    ensures
        c == tier_color(tier_of(millis as nat)),
        millis <= 99 ==> c == green(),
        100 <= millis <= 149 ==> c == orange(),
        millis >= 150 ==> c == red(),
{
    latency_tier(millis).color()
}

/// A piece of an output line, in a colour or in the terminal's own.
#[derive(Clone, Debug)]
pub struct Segment {
    pub text: String,
    pub color: Option<Rgb>,
}

pub open spec fn segments_view(line: Seq<Segment>) -> Seq<(Seq<char>, Option<Rgb>)> {
    line.map_values(|s: Segment| (s.text@, s.color))
}

/// The line for a connection to `target` on `port` that took `millis` ms.
pub open spec fn connected_segments(target: Seq<char>, port: nat, millis: nat) -> Seq<
    (Seq<char>, Option<Rgb>),
> {
    let c = Some(tier_color(tier_of(millis)));
    seq![
        ("Connected "@, c),
        ("to "@, None),
        (target, c),
        (" on port "@, None),
        (decimal_digits(port), c),
        (" ms: "@, None),
        (decimal_digits(millis), c),
    ]
}

/// The line for a failed connection to `target` on `port`.
pub open spec fn failed_segments(target: Seq<char>, port: nat) -> Seq<(Seq<char>, Option<Rgb>)> {
    let c = Some(red());
    seq![
        ("Failed "@, c),
        ("to connect to "@, None),
        (target, c),
        (" on port "@, None),
        (decimal_digits(port), c),
    ]
}

/// The text of a line, colours left out.
pub open spec fn line_text(line: Seq<(Seq<char>, Option<Rgb>)>) -> Seq<char>
    decreases line.len(),
{
    if line.len() == 0 {
        Seq::empty()
    } else {
        line_text(line.drop_last()) + line.last().0
    }
}

fn piece(text: &str, color: Option<Rgb>) -> (s: Segment)
    ensures
        s.text@ == text@,
        s.color == color,
{
    Segment { text: String::from_str(text), color }
}

fn push_piece(line: &mut Vec<Segment>, s: Segment)
    ensures
        segments_view(final(line)@) == segments_view(old(line)@).push((s.text@, s.color)),
{
    let ghost before = line@;
    line.push(s);
    assert(segments_view(line@) =~= segments_view(before).push((s.text@, s.color)));
}

/// The report of a connection to `target` on `port` that completed after
/// `millis` milliseconds.
pub fn connected_line(target: &str, port: u16, millis: u128) -> (line: Vec<Segment>)
    ensures
        segments_view(line@) == connected_segments(target@, port as nat, millis as nat),
{
    let c = Some(latency_color(millis));
    let mut line: Vec<Segment> = Vec::new();
    assert(segments_view(line@) =~= Seq::<(Seq<char>, Option<Rgb>)>::empty());
    push_piece(&mut line, piece("Connected ", c));
    push_piece(&mut line, piece("to ", None));
    push_piece(&mut line, piece(target, c));
    push_piece(&mut line, piece(" on port ", None));
    push_piece(&mut line, Segment { text: decimal_string(port as u128), color: c });
    push_piece(&mut line, piece(" ms: ", None));
    push_piece(&mut line, Segment { text: decimal_string(millis), color: c });
    assert(segments_view(line@) =~= connected_segments(target@, port as nat, millis as nat));
    line
}

/// The report of a failed connection to `target` on `port`.
pub fn failed_line(target: &str, port: u16) -> (line: Vec<Segment>)
    ensures
        segments_view(line@) == failed_segments(target@, port as nat),
{
    let c = Some(Rgb { r: 211, g: 33, b: 44 });
    let mut line: Vec<Segment> = Vec::new();
    assert(segments_view(line@) =~= Seq::<(Seq<char>, Option<Rgb>)>::empty());
    push_piece(&mut line, piece("Failed ", c));
    push_piece(&mut line, piece("to connect to ", None));
    push_piece(&mut line, piece(target, c));
    push_piece(&mut line, piece(" on port ", None));
    push_piece(&mut line, Segment { text: decimal_string(port as u128), color: c });
    assert(segments_view(line@) =~= failed_segments(target@, port as nat));
    line
}

/// Read without colours, a connection report says
/// `Connected to {target} on port {port} ms: {millis}`.
pub proof fn lemma_connected_text(target: Seq<char>, port: nat, millis: nat)
    ensures
        line_text(connected_segments(target, port, millis)) == "Connected to "@ + target
            + " on port "@ + decimal_digits(port) + " ms: "@ + decimal_digits(millis),
{
    reveal_with_fuel(line_text, 8);
    reveal_strlit("Connected ");
    reveal_strlit("to ");
    reveal_strlit("Connected to ");
    let line = connected_segments(target, port, millis);
    assert(line.drop_last().drop_last().drop_last().drop_last().drop_last().drop_last().drop_last()
        =~= Seq::<(Seq<char>, Option<Rgb>)>::empty());
    assert("Connected "@ + "to "@ =~= "Connected to "@);
    assert(line_text(line) =~= "Connected to "@ + target + " on port "@ + decimal_digits(port)
        + " ms: "@ + decimal_digits(millis));
}

/// Read without colours, a failure report says
/// `Failed to connect to {target} on port {port}`.
pub proof fn lemma_failed_text(target: Seq<char>, port: nat)
    ensures
        line_text(failed_segments(target, port)) == "Failed to connect to "@ + target
            + " on port "@ + decimal_digits(port),
{
    reveal_with_fuel(line_text, 6);
    reveal_strlit("Failed ");
    reveal_strlit("to connect to ");
    reveal_strlit("Failed to connect to ");
    let line = failed_segments(target, port);
    assert(line.drop_last().drop_last().drop_last().drop_last().drop_last()
        =~= Seq::<(Seq<char>, Option<Rgb>)>::empty());
    assert("Failed "@ + "to connect to "@ =~= "Failed to connect to "@);
    assert(line_text(line) =~= "Failed to connect to "@ + target + " on port "@ + decimal_digits(
        port,
    ));
}

pub open spec fn title_of(target: Seq<char>, port: nat) -> Seq<char> {
    "Probing "@ + target + " on port "@ + decimal_digits(port)
}

/// The terminal title shown while `target` is probed on `port`.
pub fn title_text(target: &str, port: u16) -> (t: String)
    ensures
        t@ == title_of(target@, port as nat),
{
    let mut t = String::from_str("Probing ");
    t.append(target);
    t.append(" on port ");
    let digits = decimal_string(port as u128);
    t.append(digits.as_str());
    t
}

/// The escape sequence that asks a terminal to show `title` as its title:
/// ESC `]2;`, the title, then BEL.
pub fn title_escape(title: &str) -> (e: String)
    ensures
        e@ == seq!['\x1B', ']', '2', ';'] + title@ + seq!['\x07'],
{
    proof {
        reveal_strlit("\x1B]2;");
        reveal_strlit("\x07");
    }
    let mut e = String::from_str("\x1B]2;");
    e.append(title);
    e.append("\x07");
    assert(e@ =~= seq!['\x1B', ']', '2', ';'] + title@ + seq!['\x07']);
    e
}

} // verus!
