//! The compositor's frames: what happened comes in, and out goes what is to be done
//! and what is to be painted anew.

use super::compositor::{
    added_s, changes_s, clamp_s, focus_effects, focused_terminal_s, forgotten_s, hit_s, mouse_s,
    note_changes, removed_s, repaint, repaint_s, routed_s, top_client_s, ClientEvent, Effect,
    Repaint, Scene, SceneView,
};
use super::demo::{first_windows, first_windows_s};
use super::desktop::{clients_s, terminals_s};
use super::window::{
    Window, WindowKind, LIMIT, MAX_COLS, MAX_ROWS, MAX_TEXT, MAX_WINDOWS, TITLE_H,
};
use crate::driver::console::{read_char, ConsoleInput, ConsoleView};
use crate::driver::mouse::MouseState;
use crate::framebuffer::Color;
use vstd::prelude::*;

verus! {

/// The compositor: the scene, and what it saw in the last frame.
pub struct Compositor {
    pub scene: Scene,
    pub screen_w: i32,
    pub screen_h: i32,
    pub cols: i32,
    pub rows: i32,
    pub last_mouse: u64,
    pub last_seq: Vec<u64>,
    pub last_commit: u64,
    pub focused_term: Option<usize>,
    pub frame: u64,
    pub blink_on: bool,
    pub mouse: MouseState,
    pub moved: bool,
    pub dirty: bool,
}

/// The compositor: the scene, and what it saw in the last frame.
#[verifier::ext_equal]
pub struct FrameView {
    pub scene: SceneView,
    /// The size of the screen.
    pub screen_w: i32,
    pub screen_h: i32,
    /// The size of a terminal, in characters.
    pub cols: i32,
    pub rows: i32,
    /// Which state of the mouse was seen last.
    pub last_mouse: u64,
    /// How often each terminal had changed.
    pub last_seq: Seq<u64>,
    /// How often programs had changed their windows.
    pub last_commit: u64,
    /// The terminal that has the keyboard.
    pub focused_term: Option<usize>,
    /// The number of frames.
    pub frame: u64,
    /// The text cursor shows.
    pub blink_on: bool,
    /// The mouse in this frame, and whether it changed.
    pub mouse: MouseState,
    pub moved: bool,
    /// All is to be painted anew.
    pub dirty: bool,
}

/// A window of a program as it is placed on a scene.
pub open spec fn placed_s(v: FrameView, win: Window, id: u64, cw: i32, ch: i32, title: Seq<char>) -> bool {
    let n = clients_s(v.scene.windows, v.scene.windows.len() as int) as int;
    &&& win.x == clamp_s(
        360 + 26 * n,
        0,
        v.screen_w - (if cw < 1 {
            1
        } else {
            cw as int
        }),
    )
    &&& win.y == clamp_s(180 + 26 * n, 0, v.screen_h - TITLE_H)
    &&& win.w == cw && win.h == TITLE_H + ch
    &&& win.title@ == title
    &&& win.accent == Color(0x2A7AB0)
    &&& win.kind == (WindowKind::Client { id })
}

/// A terminal as it is placed on a scene.
pub open spec fn terminal_placed_s(v: FrameView, win: Window, term: usize) -> bool {
    let n = terminals_s(v.scene.windows, v.scene.windows.len() as int) as int;
    &&& win.x == clamp_s(300 + 28 * n, 0, v.screen_w - 200)
    &&& win.y == clamp_s(150 + 28 * n, 0, v.screen_h - 120)
    &&& terminal_window(win, v.cols, v.rows, term)
}

/// A window with a terminal in it.
pub open spec fn terminal_window(win: Window, cols: i32, rows: i32, term: usize) -> bool {
    &&& win.w == 8 * cols + 16 && win.h == 28 + 10 * rows
    &&& win.title@ == "Terminal - pickleos shell"@
    &&& win.accent == Color(0xB0742A)
    &&& win.kind == (WindowKind::Terminal { term })
}

/// The state after a program's window went.
pub open spec fn destroyed_s(v: FrameView, id: u64) -> FrameView {
    match Scene::client_index(v.scene.windows, id, 0) {
        Some(i) => FrameView { scene: removed_s(forgotten_s(v.scene, id), i), dirty: true, ..v },
        None => v,
    }
}

/// The state after a look at the programs' windows and the mouse, and what is to be
/// done: the mouse acts on the windows if it changed.
pub open spec fn pointed_s(v: FrameView, commit: u64, m: MouseState) -> (FrameView, Seq<Effect>) {
    let moved = m.seq != v.last_mouse;
    let (scene, effects, dirty) = if moved {
        mouse_s(v.scene, v.screen_w as int, v.screen_h, m.x, m.y, m.left)
    } else {
        (v.scene, Seq::empty(), false)
    };
    (
        FrameView {
            scene,
            last_mouse: m.seq,
            last_commit: commit,
            mouse: m,
            moved,
            dirty: v.dirty || commit != v.last_commit || dirty,
            ..v
        },
        effects,
    )
}

/// The terminals are told where the keyboard went, if it did.
pub open spec fn terminal_effects(old: Option<usize>, new: Option<usize>) -> Seq<Effect> {
    if old != new {
        seq![Effect::FocusTerminal { on: new }]
    } else {
        Seq::empty()
    }
}

/// The keys that are left when the keyboard was passed on: those typed before are
/// dropped where it changed.
pub open spec fn kept_keys(v: FrameView, keys: Seq<char>) -> Seq<char> {
    let top = top_client_s(v.scene);
    if focused_terminal_s(v.scene) != v.focused_term || (top is Some && top
        != v.scene.focused_client) {
        Seq::empty()
    } else {
        keys
    }
}

/// A program is told the keys.
pub open spec fn key_effects(id: u64, keys: Seq<char>) -> Seq<Effect>
    decreases keys.len(),
{
    if keys.len() == 0 {
        Seq::empty()
    } else {
        key_effects(id, keys.drop_last()).push(
            Effect::Tell { id, event: ClientEvent::Key(keys.last()) },
        )
    }
}

/// The keys for the program that has the keyboard, if one has it.
pub open spec fn typed_effects(scene: SceneView, keys: Seq<char>) -> Seq<Effect> {
    match top_client_s(scene) {
        Some(id) => key_effects(id, keys),
        None => Seq::empty(),
    }
}

/// The scene when a frame ends: whoever is on top has the keyboard.
pub open spec fn settled_s(v: FrameView) -> SceneView {
    let top = top_client_s(v.scene);
    SceneView {
        focused_client: top,
        prev_left_client: if top is Some {
            v.mouse.left
        } else {
            v.scene.prev_left_client
        },
        ..v.scene
    }
}

/// The text cursor shows in a frame.
pub open spec fn blink_s(frame: int) -> bool {
    frame / 9 % 2 == 0
}

/// The state after a frame.
pub open spec fn finished_s(v: FrameView, seqs: Seq<u64>) -> FrameView {
    FrameView {
        scene: settled_s(v),
        last_seq: seqs,
        focused_term: focused_terminal_s(v.scene),
        frame: (v.frame + 1) as u64,
        blink_on: blink_s(v.frame + 1),
        dirty: false,
        ..v
    }
}

/// What is to be done at the end of a frame: the keyboard is passed on, and the
/// program on top is told the keys and the mouse.
pub open spec fn finish_effects(v: FrameView, keys: Seq<char>) -> Seq<Effect> {
    terminal_effects(v.focused_term, focused_terminal_s(v.scene)) + focus_effects(
        v.scene.focused_client,
        top_client_s(v.scene),
    ) + typed_effects(v.scene, kept_keys(v, keys)) + routed_s(
        v.scene,
        v.moved,
        v.mouse.x,
        v.mouse.y,
        v.mouse.left,
    )
}

/// The keys that stay for the shell of the terminal on top.
pub open spec fn keys_left(v: FrameView, keys: Seq<char>) -> Seq<char> {
    if top_client_s(v.scene) is Some {
        Seq::empty()
    } else {
        kept_keys(v, keys)
    }
}

/// What is painted anew in a frame.
pub open spec fn painted_s(v: FrameView, seqs: Seq<u64>) -> Repaint {
    let t = focused_terminal_s(v.scene);
    repaint_s(
        v.dirty,
        changes_s(v.last_seq, seqs, seqs.len() as int),
        t is Some && t->0 < seqs.len() && v.last_seq[t->0 as int] != seqs[t->0 as int],
        t is Some,
        blink_s(v.frame + 1) != v.blink_on,
        v.moved,
    )
}

impl Compositor {
    pub open spec fn view(&self) -> FrameView {
        FrameView {
            scene: self.scene@,
            screen_w: self.screen_w,
            screen_h: self.screen_h,
            cols: self.cols,
            rows: self.rows,
            last_mouse: self.last_mouse,
            last_seq: self.last_seq@,
            last_commit: self.last_commit,
            focused_term: self.focused_term,
            frame: self.frame,
            blink_on: self.blink_on,
            mouse: self.mouse,
            moved: self.moved,
            dirty: self.dirty,
        }
    }

    /// The scene is in order, and all coordinates are within the limits.
    pub open spec fn wf(&self) -> bool {
        &&& self.scene.wf()
        &&& 0 <= self@.screen_w <= LIMIT
        &&& 0 <= self@.screen_h <= LIMIT
        &&& 0 <= self@.cols <= MAX_COLS
        &&& 0 <= self@.rows <= MAX_ROWS
        &&& 0 <= self@.mouse.x <= LIMIT
        &&& 0 <= self@.mouse.y <= LIMIT
    }

    /// The desktop as it begins, with a terminal on top.
    pub fn new(
        screen_w: i32,
        screen_h: i32,
        cols: i32,
        rows: i32,
        primary: usize,
        seqs: Vec<u64>,
        commit: u64,
        mouse: MouseState,
    ) -> (r: Compositor)
        requires
            0 <= screen_w <= LIMIT,
            0 <= screen_h <= LIMIT,
            0 <= cols <= MAX_COLS,
            0 <= rows <= MAX_ROWS,
            0 <= mouse.x <= LIMIT,
            0 <= mouse.y <= LIMIT,
        ensures
            r.wf(),
            r@.scene.windows.len() == 3,
            first_windows_s(r@.scene.windows.take(2)),
            r@.scene.windows[2].x == 300 && r@.scene.windows[2].y == 150,
            terminal_window(r@.scene.windows[2], cols, rows, primary),
            r@ == (FrameView {
                scene: SceneView {
                    windows: r@.scene.windows,
                    focus: 2,
                    dragging: None,
                    prev_left: false,
                    focused_client: None,
                    prev_left_client: false,
                },
                screen_w,
                screen_h,
                cols,
                rows,
                last_mouse: u64::MAX,
                last_seq: seqs@,
                last_commit: commit,
                focused_term: Some(primary),
                frame: 0,
                blink_on: true,
                mouse,
                moved: false,
                dirty: false,
            }),
    {
        let mut windows: Vec<Window> = first_windows();
        let ghost first = windows@;
        proof {
            reveal_strlit("Terminal - pickleos shell");
        }
        windows.push(
            Window::new_terminal(
                300,
                150,
                cols,
                rows,
                "Terminal - pickleos shell",
                Color(0xB0742A),
                primary,
            ),
        );
        assert(windows@.take(2) =~= first);
        Compositor {
            scene: Scene::new(windows),
            screen_w,
            screen_h,
            cols,
            rows,
            last_mouse: u64::MAX,
            last_seq: seqs,
            last_commit: commit,
            focused_term: Some(primary),
            frame: 0,
            blink_on: true,
            mouse,
            moved: false,
            dirty: false,
        }
    }

    /// A program made a window.
    pub fn created(&mut self, id: u64, cw: i32, ch: i32, title: &str) -> (r: Vec<Effect>)
        requires
            old(self).wf(),
            old(self)@.scene.windows.len() < MAX_WINDOWS,
            0 <= cw <= LIMIT,
            0 <= ch <= LIMIT - TITLE_H,
            title@.len() <= MAX_TEXT,
        ensures
            final(self).wf(),
            ({
                let win = final(self)@.scene.windows.last();
                &&& final(self)@ == (FrameView {
                    scene: added_s(old(self)@.scene, win),
                    dirty: true,
                    ..old(self)@
                })
                &&& placed_s(old(self)@, win, id, cw, ch, title@)
                &&& r@ == seq![
                    Effect::Place { id, x: win.x, y: (win.y + TITLE_H) as i32 },
                    Effect::Tell { id, event: ClientEvent::Focus },
                ]
            }),
    {
        let r = self.scene.add_client(self.screen_w, self.screen_h, id, cw, ch, title);
        self.dirty = true;
        r
    }

    /// A program's window went.
    pub fn destroyed(&mut self, id: u64)
        requires
            old(self).wf(),
        ensures
            final(self).wf(),
            final(self)@ == destroyed_s(old(self)@, id),
    {
        if self.scene.remove_client(id) {
            self.dirty = true;
        }
    }

    /// Looks at the programs' windows, of which `commit` says how often they changed,
    /// and at the mouse.
    pub fn pointer(&mut self, commit: u64, m: MouseState) -> (r: Vec<Effect>)
        requires
            old(self).wf(),
            0 <= m.x <= LIMIT,
            0 <= m.y <= LIMIT,
        ensures
            final(self).wf(),
            (final(self)@, r@) == pointed_s(old(self)@, commit, m),
    {
        let moved = m.seq != self.last_mouse;
        self.last_mouse = m.seq;
        self.moved = moved;
        self.mouse = m;
        if commit != self.last_commit {
            self.last_commit = commit;
            self.dirty = true;
        }
        if !moved {
            let r: Vec<Effect> = Vec::new();
            assert(r@ =~= Seq::<Effect>::empty());
            return r;
        }
        let (effects, dirty) = self.scene.mouse(self.screen_w, self.screen_h, m.x, m.y, m.left);
        if dirty {
            self.dirty = true;
        }
        effects
    }

    /// A terminal was opened.
    pub fn terminal_opened(&mut self, term: usize)
        requires
            old(self).wf(),
            old(self)@.scene.windows.len() < MAX_WINDOWS,
        ensures
            final(self).wf(),
            ({
                let win = final(self)@.scene.windows.last();
                &&& final(self)@ == (FrameView {
                    scene: added_s(old(self)@.scene, win),
                    dirty: true,
                    ..old(self)@
                })
                &&& terminal_placed_s(old(self)@, win, term)
            }),
    {
        self.scene.open_terminal(self.screen_w, self.screen_h, self.cols, self.rows, term);
        self.dirty = true;
    }

    /// Ends a frame, with how often each terminal has changed. Passes the keyboard and
    /// the mouse on, and says what is painted anew.
    pub fn finish(&mut self, console: &mut ConsoleInput, seqs: &Vec<u64>) -> (r: (
        Vec<Effect>,
        Repaint,
    ))
        requires
            old(self).wf(),
            old(console).wf(),
            old(self)@.frame < u64::MAX,
            seqs@.len() == old(self)@.last_seq.len(),
        ensures
            final(self).wf(),
            final(console).wf(),
            final(self)@ == finished_s(old(self)@, seqs@),
            final(console)@ == (ConsoleView {
                queue: keys_left(old(self)@, old(console)@.queue),
                ..old(console)@
            }),
            r.0@ == finish_effects(old(self)@, old(console)@.queue),
            r.1 == painted_s(old(self)@, seqs@),
    {
        let ghost v = self@;
        let ghost q = console@;
        let mut effects: Vec<Effect> = Vec::new();
        let term = self.scene.focused_terminal();
        let same = match (term, self.focused_term) {
            (Some(a), Some(b)) => a == b,
            (None, None) => true,
            _ => false,
        };
        if !same {
            effects.push(Effect::FocusTerminal { on: term });
            self.focused_term = term;
            crate::driver::console::flush(console);
        }
        assert(effects@ =~= terminal_effects(v.focused_term, term));
        let mut told = self.scene.sync_client_focus(console);
        effects.append(&mut told);
        assert(console@ =~= (ConsoleView { queue: kept_keys(v, q.queue), ..q }));
        let ghost so_far = effects@;
        if let Some(id) = self.scene.top_client() {
            forward_keys(console, id, &mut effects);
        }
        assert(effects@ =~= so_far + typed_effects(v.scene, kept_keys(v, q.queue)));
        let mut routed = self.scene.route_mouse(
            self.moved,
            self.mouse.x,
            self.mouse.y,
            self.mouse.left,
        );
        effects.append(&mut routed);
        let (changed, focused_changed) = note_changes(&mut self.last_seq, seqs, term);
        self.frame = self.frame + 1;
        let blink_on = super::compositor::blink(self.frame);
        let blinked = blink_on != self.blink_on;
        self.blink_on = blink_on;
        let paint = repaint(
            self.dirty,
            changed,
            focused_changed,
            term.is_some(),
            blinked,
            self.moved,
        );
        self.dirty = false;
        assert(self@ =~= finished_s(v, seqs@));
        assert(effects@ =~= finish_effects(v, q.queue));
        assert(console@ =~= (ConsoleView { queue: keys_left(v, q.queue), ..q }));
        (effects, paint)
    }
}

/// One key more is told last.
proof fn lemma_one_more_key(id: u64, keys: Seq<char>, c: char)
    ensures
        key_effects(id, keys.push(c)) == key_effects(id, keys).push(
            Effect::Tell { id, event: ClientEvent::Key(c) },
        ),
{
    assert(keys.push(c).drop_last() =~= keys);
}

/// Tells a program a key.
fn tell_key(id: u64, c: char) -> (r: Effect)
    ensures
        r == (Effect::Tell { id, event: ClientEvent::Key(c) }),
{
    Effect::Tell { id, event: ClientEvent::Key(c) }
}

/// Tells a program all keys that were typed.
fn forward_keys(console: &mut ConsoleInput, id: u64, effects: &mut Vec<Effect>)
    requires
        old(console).wf(),
    ensures
        final(console).wf(),
        final(console)@ == (ConsoleView { queue: Seq::empty(), ..old(console)@ }),
        final(effects)@ == old(effects)@ + key_effects(id, old(console)@.queue),
{
    let ghost q = console@;
    let ghost e = effects@;
    let ghost mut k: int = 0;
    assert(q.queue.skip(0) =~= q.queue);
    assert(e =~= e + key_effects(id, q.queue.take(0)));
    loop
        invariant
            console.wf(),
            0 <= k <= q.queue.len(),
            console@ == (ConsoleView { queue: q.queue.skip(k), ..q }),
            effects@ == e + key_effects(id, q.queue.take(k)),
        ensures
            console.wf(),
            console@ == (ConsoleView { queue: Seq::empty(), ..q }),
            effects@ == e + key_effects(id, q.queue),
        decreases q.queue.len() - k,
    {
        match read_char(console) {
            None => {
                assert(k == q.queue.len());
                assert(q.queue.take(k) =~= q.queue);
                assert(console@ =~= (ConsoleView { queue: Seq::empty(), ..q }));
                break ;
            },
            Some(c) => {
                effects.push(tell_key(id, c));
                proof {
                    assert(q.queue.skip(k).drop_first() =~= q.queue.skip(k + 1));
                    lemma_one_more_key(id, q.queue.take(k), c);
                    assert(q.queue.take(k).push(c) =~= q.queue.take(k + 1));
                    k = k + 1;
                    assert(effects@ =~= e + key_effects(id, q.queue.take(k)));
                }
            },
        }
    }
}

/// Once a frame has ended, nobody is told again that they have the keyboard until
/// the windows change: the next frame passes on keys and the mouse alone.
pub proof fn law_focus_is_told_once(
    v: FrameView,
    seqs: Seq<u64>,
    commit: u64,
    m: MouseState,
    keys: Seq<char>,
)
    requires
        pointed_s(finished_s(v, seqs), commit, m).0.scene.windows == v.scene.windows,
        pointed_s(finished_s(v, seqs), commit, m).0.scene.focus == v.scene.focus,
    ensures
        ({
            let w = pointed_s(finished_s(v, seqs), commit, m).0;
            finish_effects(w, keys) == typed_effects(w.scene, keys) + routed_s(
                w.scene,
                w.moved,
                m.x,
                m.y,
                m.left,
            )
        }),
{
    let w = pointed_s(finished_s(v, seqs), commit, m).0;
    lemma_hit_is_there(v.scene.windows, v.scene.windows.len() as int, m.x, m.y);
    assert(w.focused_term == focused_terminal_s(w.scene));
    assert(w.scene.focused_client == top_client_s(w.scene));
    assert(terminal_effects(w.focused_term, focused_terminal_s(w.scene)) =~= Seq::empty());
    assert(focus_effects(w.scene.focused_client, top_client_s(w.scene)) =~= Seq::empty());
    assert(finish_effects(w, keys) =~= typed_effects(w.scene, keys) + routed_s(
        w.scene,
        w.moved,
        m.x,
        m.y,
        m.left,
    ));
}

/// A window that is hit is there.
proof fn lemma_hit_is_there(wins: Seq<Window>, n: int, px: i32, py: i32)
    ensures
        hit_s(wins, n, px, py) matches Some(i) ==> 0 <= i < n,
    decreases n,
{
    if n > 0 {
        lemma_hit_is_there(wins, n - 1, px, py);
    }
}

/// While a terminal keeps the keyboard, the compositor takes no key from its shell.
pub proof fn law_shell_keeps_its_keys(v: FrameView, term: usize, keys: Seq<char>)
    requires
        focused_terminal_s(v.scene) == Some(term),
        v.focused_term == Some(term),
    ensures
        keys_left(v, keys) == keys,
{
}

/// A frame in which nothing changed paints nothing.
pub proof fn law_quiet_frame_paints_nothing(v: FrameView, commit: u64, m: MouseState)
    requires
        !v.dirty,
        commit == v.last_commit,
        m.seq == v.last_mouse,
        blink_s(v.frame + 1) == v.blink_on,
    ensures
        painted_s(pointed_s(v, commit, m).0, v.last_seq) == Repaint::Nothing,
{
    lemma_no_changes(v.last_seq, v.last_seq.len() as int);
}

/// Terminals that stayed as they were did not change.
proof fn lemma_no_changes(seqs: Seq<u64>, n: int)
    requires
        0 <= n <= seqs.len(),
    ensures
        changes_s(seqs, seqs, n) == 0,
    decreases n,
{
    if n > 0 {
        lemma_no_changes(seqs, n - 1);
    }
}

} // verus!
