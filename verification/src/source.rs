//! The sliding-window line source: a single forward pass over the practice
//! text that always shows the line due for typing together with a bounded
//! amount of upcoming context.

use vstd::prelude::*;

verus! {

/// The bounded look-ahead window over the lines still to be typed. Its first
/// line is always the one currently due; the rest is upcoming context. It is
/// filled once at the start and then advanced one line per typed line.
pub struct SlidingWindow {
    window: Vec<Vec<char>>,
    capacity: usize,
}

impl SlidingWindow {
    /// The lines currently in the window, the line due for typing first.
    pub closed spec fn lines(&self) -> Seq<Seq<char>> {
        Seq::new(self.window@.len(), |i: int| self.window@[i]@)
    }

    /// The configured bound on how many lines the window may hold.
    pub closed spec fn cap(&self) -> int {
        self.capacity as int
    }

    /// The window never grows beyond its configured, non-zero bound.
    pub open spec fn wf(&self) -> bool {
        &&& 1 <= self.cap()
        &&& self.lines().len() <= self.cap()
    }

    pub fn new(capacity: usize) -> (s: Self)
        requires
            1 <= capacity,
        ensures
            s.wf(),
            s.cap() == capacity,
            s.lines() == Seq::<Seq<char>>::empty(),
    {
        let s = SlidingWindow { window: Vec::new(), capacity };
        proof {
            assert(s.lines() =~= Seq::<Seq<char>>::empty());
        }
        s
    }

    pub fn len(&self) -> (n: usize)
        ensures
            n == self.lines().len(),
    {
        self.window.len()
    }

    pub fn is_empty(&self) -> (b: bool)
        ensures
            b == (self.lines().len() == 0),
    {
        self.window.len() == 0
    }

    /// Appends one upcoming line while the initial window is being filled.
    pub fn feed(&mut self, line: Vec<char>)
        requires
            old(self).wf(),
            old(self).lines().len() < old(self).cap(),
        ensures
            final(self).wf(),
            final(self).cap() == old(self).cap(),
            final(self).lines() == old(self).lines().push(line@),
    {
        let ghost before = self.lines();
        let ghost lv = line@;
        self.window.push(line);
        proof {
            assert(self.lines() =~= before.push(lv));
        }
    }

    /// The line at index `i`, index 0 being the line due for typing.
    pub fn line_at(&self, i: usize) -> (l: &Vec<char>)
        requires
            i < self.lines().len(),
        ensures
            l@ == self.lines()[i as int],
    {
        &self.window[i]
    }

    /// One pull of the generator: drops the front line, the one just typed,
    /// and appends the one new upcoming line when the source still has one.
    pub fn advance(&mut self, incoming: Option<Vec<char>>)
        requires
            old(self).wf(),
            old(self).lines().len() > 0,
        ensures
            final(self).wf(),
            final(self).cap() == old(self).cap(),
            (final(self).lines() == match incoming {
                Some(l) => old(self).lines().skip(1).push(l@),
                None => old(self).lines().skip(1),
            }),
    {
        let ghost before = self.lines();
        self.window.remove(0);
        proof {
            assert(self.lines() =~= before.skip(1));
        }
        match incoming {
            Some(l) => {
                let ghost dropped = self.lines();
                let ghost lv = l@;
                self.window.push(l);
                proof {
                    assert(self.lines() =~= dropped.push(lv));
                }
            },
            None => {},
        }
    }
}

/// How many lines the window whose head is line `i` of `n` holds, with
/// look-ahead bound `w`: the full bound, shrinking only near the end of the
/// source.
pub open spec fn window_len(n: int, w: int, i: int) -> int {
    if n - i < w {
        n - i
    } else {
        w
    }
}

/// Runs the whole single forward pass over `lines` and returns every window
/// in order: one window per source line, the window with head line `i`
/// holding lines `i` through `i + window_len(n, w, i)` of the source.
pub fn collect_windows(lines: &Vec<Vec<char>>, w: usize) -> (r: Vec<Vec<Vec<char>>>)
    requires
        1 <= w,
    ensures
        r@.len() == lines@.len(),
        forall|i: int|
            0 <= i < r@.len() ==> #[trigger] r@[i]@.len() == window_len(
                lines@.len() as int,
                w as int,
                i,
            ),
        forall|i: int, j: int|
            0 <= i < r@.len() && 0 <= j < r@[i]@.len() ==> #[trigger] r@[i]@[j]@ == lines@[i
                + j]@,
{
    let n = lines.len();
    let mut sw = SlidingWindow::new(w);
    let mut f: usize = 0;
    while f < n && f < w
        invariant
            sw.wf(),
            sw.cap() == w,
            0 <= f <= n,
            f <= w,
            n == lines@.len(),
            sw.lines().len() == f,
            forall|j: int| 0 <= j < f ==> #[trigger] sw.lines()[j] == lines@[j]@,
        decreases n - f,
    {
        let line = lines[f].clone();
        proof {
            assert(line@ =~= lines@[f as int]@);
        }
        sw.feed(line);
        f = f + 1;
    }
    let mut r: Vec<Vec<Vec<char>>> = Vec::new();
    let mut i: usize = 0;
    while i < n
        invariant
            sw.wf(),
            sw.cap() == w,
            1 <= w,
            0 <= i <= n,
            n == lines@.len(),
            sw.lines().len() == window_len(n as int, w as int, i as int),
            forall|j: int|
                0 <= j < sw.lines().len() ==> #[trigger] sw.lines()[j] == lines@[i + j]@,
            r@.len() == i,
            forall|x: int|
                0 <= x < i ==> #[trigger] r@[x]@.len() == window_len(n as int, w as int, x),
            forall|x: int, j: int|
                0 <= x < i && 0 <= j < r@[x]@.len() ==> #[trigger] r@[x]@[j]@ == lines@[x + j]@,
        decreases n - i,
    {
        let wl = sw.len();
        let mut wcopy: Vec<Vec<char>> = Vec::new();
        let mut j: usize = 0;
        while j < wl
            invariant
                0 <= j <= wl,
                wl == sw.lines().len(),
                sw.wf(),
                wcopy@.len() == j,
                forall|y: int| 0 <= y < j ==> #[trigger] wcopy@[y]@ == sw.lines()[y],
            decreases wl - j,
        {
            let line = sw.line_at(j).clone();
            proof {
                assert(line@ =~= sw.lines()[j as int]);
            }
            wcopy.push(line);
            j = j + 1;
        }
        r.push(wcopy);
        let incoming = if w < n - i {
            let line = lines[i + w].clone();
            proof {
                assert(line@ =~= lines@[i + w]@);
            }
            Some(line)
        } else {
            None
        };
        sw.advance(incoming);
        i = i + 1;
    }
    r
}

} // verus!
