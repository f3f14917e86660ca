use vstd::prelude::*;

verus! {

/// A point of a path, in the path's own coordinate space.
#[derive(Clone, Copy, Debug, PartialEq)]
pub struct Point<W> {
    pub x: W,
    pub y: W,
}

/// An absolute path command, as a document's path data holds it.
#[derive(Clone, Copy, Debug, PartialEq)]
pub enum PathCommand<W> {
    MoveTo { x: W, y: W },
    LineTo { x: W, y: W },
    CurveTo { x1: W, y1: W, x2: W, y2: W, x: W, y: W },
    ClosePath,
}

/// One event of the canonical geometry stream that tessellators consume.
#[derive(Clone, Copy, Debug, PartialEq)]
pub enum PathEvent<W> {
    Begin { at: Point<W> },
    Line { from: Point<W>, to: Point<W> },
    Cubic { from: Point<W>, ctrl1: Point<W>, ctrl2: Point<W>, to: Point<W> },
    End { last: Point<W>, first: Point<W>, close: bool },
}

pub open spec fn pt<W>(x: W, y: W) -> Point<W> {
    Point { x, y }
}

/// The events that `cmds` yield when the converter stands at `prev`, with the
/// current subpath started at `first`, and `needs_end` telling whether that
/// subpath is open and unterminated.
pub open spec fn events_from<W>(
    cmds: Seq<PathCommand<W>>,
    prev: Point<W>,
    first: Point<W>,
    needs_end: bool,
) -> Seq<PathEvent<W>>
    decreases cmds.len(),
{
    if cmds.len() == 0 {
        if needs_end {
            seq![PathEvent::End { last: prev, first, close: false }]
        } else {
            seq![]
        }
    } else {
        let rest = cmds.drop_first();
        match cmds[0] {
            PathCommand::MoveTo { x, y } => {
                let p = pt(x, y);
                if needs_end {
                    seq![PathEvent::End { last: prev, first, close: false }, PathEvent::Begin { at: p }]
                        + events_from(rest, p, p, false)
                } else {
                    seq![PathEvent::Begin { at: p }] + events_from(rest, p, p, false)
                }
            },
            PathCommand::LineTo { x, y } => {
                let p = pt(x, y);
                seq![PathEvent::Line { from: prev, to: p }] + events_from(rest, p, first, true)
            },
            PathCommand::CurveTo { x1, y1, x2, y2, x, y } => {
                let p = pt(x, y);
                seq![PathEvent::Cubic { from: prev, ctrl1: pt(x1, y1), ctrl2: pt(x2, y2), to: p }]
                    + events_from(rest, p, first, true)
            },
            PathCommand::ClosePath => {
                seq![PathEvent::End { last: prev, first, close: true }]
                    + events_from(rest, first, first, false)
            },
        }
    }
}

/// The whole event stream of a command list; `start` stands for the current
/// point before any command (the origin, for a document's path data).
pub open spec fn path_events<W>(cmds: Seq<PathCommand<W>>, start: Point<W>) -> Seq<PathEvent<W>> {
    events_from(cmds, start, start, false)
}

/// The converter: a pull-based state machine that turns commands into events,
/// one event per call of `next`, with a one-slot buffer for the second event
/// that a move into a new subpath produces.
pub struct PathConvIter<'a, W> {
    commands: &'a [PathCommand<W>],
    pos: usize,
    prev: Point<W>,
    first: Point<W>,
    needs_end: bool,
    deferred: Option<PathEvent<W>>,
}

impl<'a, W: Copy> PathConvIter<'a, W> {
    pub closed spec fn well_formed(&self) -> bool {
        self.pos <= self.commands@.len()
    }

    /// The events that the converter has yet to hand out, in order.
    pub closed spec fn pending(&self) -> Seq<PathEvent<W>> {
        let tail = events_from(
            self.commands@.subrange(self.pos as int, self.commands@.len() as int),
            self.prev,
            self.first,
            self.needs_end,
        );
        match self.deferred {
            Some(e) => seq![e] + tail,
            None => tail,
        }
    }

    pub fn new(commands: &'a [PathCommand<W>], start: Point<W>) -> (r: Self)
        ensures
            r.well_formed(),
            r.pending() == path_events(commands@, start),
    {
        let r = PathConvIter { commands, pos: 0, prev: start, first: start, needs_end: false, deferred: None };
        assert(commands@.subrange(0, commands@.len() as int) =~= commands@);
        r
    }

    /// Hands out the next event, or `None` once the stream is exhausted.
    pub fn next(&mut self) -> (r: Option<PathEvent<W>>)
        requires
            old(self).well_formed(),
        ensures
            final(self).well_formed(),
            old(self).pending().len() == 0 ==> r is None && final(self).pending().len() == 0,
            old(self).pending().len() > 0 ==> r == Some(old(self).pending()[0])
                && final(self).pending() == old(self).pending().drop_first(),
    {
        let ghost old_tail = self.commands@.subrange(self.pos as int, self.commands@.len() as int);
        if self.deferred.is_some() {
            let e = self.deferred.take();
            assert(old(self).pending().drop_first() =~= self.pending());
            return e;
        }
        if self.pos >= self.commands.len() {
            assert(old_tail.len() == 0);
            if self.needs_end {
                self.needs_end = false;
                let r = PathEvent::End { last: self.prev, first: self.first, close: false };
                assert(old(self).pending().drop_first() =~= self.pending());
                return Some(r);
            } else {
                return None;
            }
        }
        let cmd = self.commands[self.pos];
        self.pos = self.pos + 1;
        let ghost new_tail = self.commands@.subrange(self.pos as int, self.commands@.len() as int);
        assert(old_tail.drop_first() =~= new_tail);
        assert(old_tail[0] == cmd);
        match cmd {
            PathCommand::MoveTo { x, y } => {
                let p = Point { x, y };
                if self.needs_end {
                    let last = self.prev;
                    let first = self.first;
                    self.needs_end = false;
                    self.prev = p;
                    self.first = p;
                    self.deferred = Some(PathEvent::Begin { at: p });
                    assert(old(self).pending().drop_first() =~= self.pending());
                    Some(PathEvent::End { last, first, close: false })
                } else {
                    self.prev = p;
                    self.first = p;
                    assert(old(self).pending().drop_first() =~= self.pending());
                    Some(PathEvent::Begin { at: p })
                }
            },
            PathCommand::LineTo { x, y } => {
                let from = self.prev;
                self.needs_end = true;
                self.prev = Point { x, y };
                assert(old(self).pending().drop_first() =~= self.pending());
                Some(PathEvent::Line { from, to: self.prev })
            },
            PathCommand::CurveTo { x1, y1, x2, y2, x, y } => {
                let from = self.prev;
                self.needs_end = true;
                self.prev = Point { x, y };
                assert(old(self).pending().drop_first() =~= self.pending());
                Some(PathEvent::Cubic {
                    from,
                    ctrl1: Point { x: x1, y: y1 },
                    ctrl2: Point { x: x2, y: y2 },
                    to: self.prev,
                })
            },
            PathCommand::ClosePath => {
                let last = self.prev;
                self.needs_end = false;
                self.prev = self.first;
                assert(old(self).pending().drop_first() =~= self.pending());
                Some(PathEvent::End { last, first: self.first, close: true })
            },
        }
    }
}

/// Converts a whole command list into its event stream.
pub fn convert_path<W: Copy>(commands: &[PathCommand<W>], start: Point<W>) -> (r: Vec<PathEvent<W>>)
    ensures
        r@ == path_events(commands@, start),
{
    let mut it = PathConvIter::new(commands, start);
    let mut out: Vec<PathEvent<W>> = Vec::new();
    loop
        invariant
            it.well_formed(),
            out@ + it.pending() == path_events(commands@, start),
        decreases it.pending().len(),
    {
        let ghost before = it.pending();
        match it.next() {
            Some(e) => {
                out.push(e);
                assert(out@ + it.pending() =~= path_events(commands@, start)) by {
                    assert(before =~= seq![e] + it.pending());
                }
            },
            None => {
                assert(it.pending() =~= seq![]);
                assert(out@ =~= path_events(commands@, start));
                return out;
            },
        }
    }
}


/// Where a command list stands while it is read: no subpath, a subpath just
/// begun by a move, or a subpath with at least one segment drawn.
pub enum CommandState {
    Idle,
    Begun,
    Drawing,
}

/// Path data as a document parser produces it: every subpath opens with a
/// move, a move is followed by a segment or a close, and after a close comes
/// a move or the end.
pub open spec fn commands_ok_from<W>(cmds: Seq<PathCommand<W>>, st: CommandState) -> bool
    decreases cmds.len(),
{
    if cmds.len() == 0 {
        !(st is Begun)
    } else {
        let rest = cmds.drop_first();
        match (cmds[0], st) {
            (PathCommand::MoveTo { .. }, CommandState::Idle) => commands_ok_from(rest, CommandState::Begun),
            (PathCommand::MoveTo { .. }, CommandState::Drawing) => commands_ok_from(rest, CommandState::Begun),
            (PathCommand::LineTo { .. }, CommandState::Begun) => commands_ok_from(rest, CommandState::Drawing),
            (PathCommand::LineTo { .. }, CommandState::Drawing) => commands_ok_from(rest, CommandState::Drawing),
            (PathCommand::CurveTo { .. }, CommandState::Begun) => commands_ok_from(rest, CommandState::Drawing),
            (PathCommand::CurveTo { .. }, CommandState::Drawing) => commands_ok_from(rest, CommandState::Drawing),
            (PathCommand::ClosePath, CommandState::Begun) => commands_ok_from(rest, CommandState::Idle),
            (PathCommand::ClosePath, CommandState::Drawing) => commands_ok_from(rest, CommandState::Idle),
            _ => false,
        }
    }
}

pub open spec fn commands_well_formed<W>(cmds: Seq<PathCommand<W>>) -> bool {
    commands_ok_from(cmds, CommandState::Idle)
}

/// Events properly nested from a state where a subpath is `open` or not:
/// a `Begin` only outside a subpath, an `End` or a segment only inside one,
/// and no subpath left open at the end.
pub open spec fn nested_from<W>(ev: Seq<PathEvent<W>>, open: bool) -> bool
    decreases ev.len(),
{
    if ev.len() == 0 {
        !open
    } else {
        let rest = ev.drop_first();
        match ev[0] {
            PathEvent::Begin { .. } => !open && nested_from(rest, true),
            PathEvent::End { .. } => open && nested_from(rest, false),
            _ => open && nested_from(rest, true),
        }
    }
}

pub open spec fn count_begins<W>(ev: Seq<PathEvent<W>>) -> nat
    decreases ev.len(),
{
    if ev.len() == 0 {
        0
    } else {
        (if ev[0] is Begin { 1nat } else { 0nat }) + count_begins(ev.drop_first())
    }
}

pub open spec fn count_ends<W>(ev: Seq<PathEvent<W>>) -> nat
    decreases ev.len(),
{
    if ev.len() == 0 {
        0
    } else {
        (if ev[0] is End { 1nat } else { 0nat }) + count_ends(ev.drop_first())
    }
}

/// As many `Begin` events as `End` events, and never two `Begin`s without an
/// `End` between them.
pub open spec fn events_balanced<W>(ev: Seq<PathEvent<W>>) -> bool {
    nested_from(ev, false) && count_begins(ev) == count_ends(ev)
}

proof fn lemma_balance_from<W>(
    cmds: Seq<PathCommand<W>>,
    st: CommandState,
    prev: Point<W>,
    first: Point<W>,
    needs_end: bool,
)
    requires
        commands_ok_from(cmds, st),
        needs_end == (st is Drawing),
    ensures
        nested_from(events_from(cmds, prev, first, needs_end), !(st is Idle)),
        count_begins(events_from(cmds, prev, first, needs_end)) + (if st is Idle { 0nat } else { 1nat })
            == count_ends(events_from(cmds, prev, first, needs_end)),
    decreases cmds.len(),
{
    let ev = events_from(cmds, prev, first, needs_end);
    if cmds.len() == 0 {
        if needs_end {
            assert(ev.drop_first() =~= Seq::<PathEvent<W>>::empty());
            assert(count_begins(ev.drop_first()) == 0);
            assert(count_ends(ev.drop_first()) == 0);
            assert(nested_from(ev.drop_first(), false));
        }
    } else {
        let rest = cmds.drop_first();
        match cmds[0] {
            PathCommand::MoveTo { x, y } => {
                let p = pt(x, y);
                lemma_balance_from(rest, CommandState::Begun, p, p, false);
                let tail = events_from(rest, p, p, false);
                if needs_end {
                    assert(ev.drop_first().drop_first() =~= tail);
                    assert(ev.drop_first()[0] == PathEvent::Begin { at: p });
                    assert(count_begins(ev.drop_first()) == 1 + count_begins(tail));
                    assert(count_ends(ev.drop_first()) == count_ends(tail));
                    assert(nested_from(ev.drop_first(), false));
                } else {
                    assert(ev.drop_first() =~= tail);
                }
            },
            PathCommand::LineTo { x, y } => {
                let p = pt(x, y);
                lemma_balance_from(rest, CommandState::Drawing, p, first, true);
                assert(ev.drop_first() =~= events_from(rest, p, first, true));
            },
            PathCommand::CurveTo { x1, y1, x2, y2, x, y } => {
                let p = pt(x, y);
                lemma_balance_from(rest, CommandState::Drawing, p, first, true);
                assert(ev.drop_first() =~= events_from(rest, p, first, true));
            },
            PathCommand::ClosePath => {
                lemma_balance_from(rest, CommandState::Idle, first, first, false);
                assert(ev.drop_first() =~= events_from(rest, first, first, false));
                assert(!(st is Idle));
            },
        }
    }
}

/// The event stream of well-formed path data is balanced: every `Begin` is
/// matched by exactly one `End` before the next `Begin` or the end of the
/// stream, including the `End` events the converter adds for subpaths that
/// the data leaves unclosed.
pub proof fn lemma_event_balance<W>(cmds: Seq<PathCommand<W>>, start: Point<W>)
    requires
        commands_well_formed(cmds),
    ensures
        events_balanced(path_events(cmds, start)),
{
    lemma_balance_from(cmds, CommandState::Idle, start, start, false);
}

} // verus!
