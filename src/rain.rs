use vstd::prelude::*;

verus! {

broadcast use vstd::array::group_array_axioms;

/// A cell's intensity: 0 is an empty cell, 255 a freshly spawned head.
pub type Sym = u8;

/// Fall-off a cell's intensity experiences each frame while it decays.
pub const SYM_FALLOFF: u8 = 5;

/// The intensity of a freshly spawned head.
pub const HEAD: u8 = 255;

/// Foreground colors a glyph can be drawn in.
#[derive(Clone, Copy, Debug, PartialEq, Eq, Structural)]
pub enum Color {
    /// The terminal's own default color.
    Default,
    White,
    Red,
    DarkRed,
    Green,
    DarkGreen,
    Blue,
    DarkBlue,
}

impl Default for Color {
    fn default() -> (r: Color)
        ensures
            r == Color::Default,
    {
        Color::Default
    }
}

/// What a rain engine holds, seen as mathematical values.
pub struct RainView {
    /// The text of the last rendered frame.
    pub frame: Seq<char>,
    /// Cell intensities, row-major.
    pub cells: Seq<u8>,
    /// Columns of the last observed terminal size.
    pub cols: u16,
    /// Rows of the last observed terminal size.
    pub rows: u16,
    /// Red trail colors instead of green ones.
    pub red: bool,
    /// Half-width katakana glyphs instead of Latin letters and symbols.
    pub jap: bool,
}

/// The rain engine: one intensity buffer that is rendered and then advanced every tick.
pub struct Context {
    /// The frame being built, written out in one piece after each render.
    str: String,
    /// Row-major cell intensities, one per terminal cell.
    buf: Vec<Sym>,
    /// Last recorded terminal size as `[columns, rows]`.
    size: [u16; 2],
    red_fg: bool,
    jap_glyph: bool,
}

impl View for Context {
    type V = RainView;

    closed spec fn view(&self) -> RainView {
        RainView {
            frame: self.str@,
            cells: self.buf@,
            cols: self.size[0],
            rows: self.size[1],
            red: self.red_fg,
            jap: self.jap_glyph,
        }
    }
}

/// The buffer right after a resize to `cols` x `rows`: every cell empty.
pub open spec fn blank(cols: u16, rows: u16) -> Seq<u8> {
    Seq::new((cols * rows) as nat, |i: int| 0u8)
}

/// The buffer after one shift-down step: every row but the top one takes the row above it.
pub open spec fn shifted(b: Seq<u8>, w: int) -> Seq<u8> {
    Seq::new(b.len(), |i: int| if i < w { b[i] } else { b[i - w] })
}

/// The intensity a top-row cell gets from one regeneration step, given the two coin flips.
pub open spec fn regen(v: u8, spawn: bool, keep: bool) -> u8 {
    if v == 0 && spawn {
        HEAD
    } else if v == HEAD {
        (HEAD - SYM_FALLOFF) as u8
    } else if keep && v >= SYM_FALLOFF {
        (v - SYM_FALLOFF) as u8
    } else {
        0
    }
}

/// The buffer after the top row (the first `w` cells) is regenerated.
pub open spec fn regen_top(b: Seq<u8>, w: int, spawn: Seq<bool>, keep: Seq<bool>) -> Seq<u8> {
    Seq::new(b.len(), |i: int| if i < w { regen(b[i], spawn[i], keep[i]) } else { b[i] })
}

/// The buffer after one advance pass: shift down, then regenerate the top row.
pub open spec fn advanced(b: Seq<u8>, w: int, spawn: Seq<bool>, keep: Seq<bool>) -> Seq<u8> {
    regen_top(shifted(b, w), w, spawn, keep)
}

/// Intensities from here up to (not including) `BRIGHT_FROM` are drawn in the dim trail color.
pub const BRIGHT_FROM: u8 = 180;

/// Intensities from here up are drawn in white, as heads.
pub const WHITE_FROM: u8 = 252;

/// The escape sequence that moves the cursor to the top-left corner.
pub open spec fn home_code() -> Seq<char> {
    "\x1b[H"@
}

/// The escape sequence that selects a foreground color; the terminal default needs none.
pub open spec fn color_code(c: Color) -> Seq<char> {
    match c {
        Color::White => "\x1b[97m"@,
        Color::Red => "\x1b[91m"@,
        Color::DarkRed => "\x1b[31m"@,
        Color::Green => "\x1b[92m"@,
        Color::DarkGreen => "\x1b[32m"@,
        _ => Seq::empty(),
    }
}

/// The color a visible cell of intensity `v` is drawn in.
pub open spec fn shade(v: u8, red: bool) -> Color {
    if v < BRIGHT_FROM {
        if red { Color::DarkRed } else { Color::DarkGreen }
    } else if v < WHITE_FROM {
        if red { Color::Red } else { Color::Green }
    } else {
        Color::White
    }
}

/// The text of one cell: a blank below the fall-off, else its color code and its glyph `g`.
pub open spec fn cell_text(v: u8, red: bool, g: char) -> Seq<char> {
    if v < SYM_FALLOFF {
        seq![' ']
    } else {
        color_code(shade(v, red)) + seq![g]
    }
}

/// The text of the cells `b`, in order, where cell `i` shows glyph `gs[i]` if it is visible.
pub open spec fn cells_text(b: Seq<u8>, red: bool, gs: Seq<char>) -> Seq<char>
    decreases b.len(),
{
    if b.len() == 0 {
        Seq::empty()
    } else {
        cells_text(b.drop_last(), red, gs) + cell_text(b.last(), red, gs[b.len() - 1])
    }
}

/// A whole frame: cursor home, then every cell in row-major order.
pub open spec fn frame_text(b: Seq<u8>, red: bool, gs: Seq<char>) -> Seq<char> {
    home_code() + cells_text(b, red, gs)
}

/// Lower-case Latin glyphs.
pub const LOWER_GLYPHS: &'static str = "abcdefghijklmnopqrstuvwxy";

/// Upper-case Latin glyphs.
pub const UPPER_GLYPHS: &'static str = "ABCDEFGHIJKLMNOPQRSTUVWXY";

/// Punctuation glyphs.
pub const SYMBOL_GLYPHS: &'static str = "?!/@#^%&*;<>{[}]-()~|_\\$+=";

/// Half-width katakana glyphs.
pub const KATAKANA_GLYPHS: &'static str = "｡ｦｧｨｩｪｫｬｭｮｯｰｱｲｳｴｵｶｷｸｹｺｻｼｽｾｿﾀﾁﾂﾃﾄﾅﾆﾇﾈﾉﾊﾋﾌﾍﾎﾏﾐﾑﾒﾓﾔﾕﾖﾗﾘﾙﾚﾛﾜﾝ";

/// Whether `c` belongs to the glyph alphabet selected by `jap`.
pub open spec fn is_glyph(jap: bool, c: char) -> bool {
    if jap {
        KATAKANA_GLYPHS@.contains(c)
    } else {
        LOWER_GLYPHS@.contains(c) || UPPER_GLYPHS@.contains(c) || SYMBOL_GLYPHS@.contains(c)
    }
}

/// Every visible cell of `b` (at or above the fall-off) shows a glyph of the selected alphabet.
pub open spec fn glyphs_fit(b: Seq<u8>, jap: bool, gs: Seq<char>) -> bool {
    &&& gs.len() == b.len()
    &&& forall|i: int| 0 <= i < b.len() && b[i] >= SYM_FALLOFF ==> is_glyph(jap, #[trigger] gs[i])
}

/// The buffer a tick works on after it observed the terminal size `cols` x `rows`.
pub open spec fn resized(v: RainView, cols: u16, rows: u16) -> Seq<u8> {
    if cols == v.cols && rows == v.rows {
        v.cells
    } else {
        blank(cols, rows)
    }
}

/// An empty top-row cell spawns a head with a chance of one in `SPAWN_ODDS`.
pub const SPAWN_ODDS: u32 = 40;

/// A decaying top-row cell keeps decaying with a chance of `KEEP_CHANCE` in `KEEP_OUT_OF`;
/// otherwise it goes out.
pub const KEEP_CHANCE: u32 = 9;

/// See `KEEP_CHANCE`.
pub const KEEP_OUT_OF: u32 = 10;

/// Relies on rand's `Rng::gen_range` on `thread_rng()`: a value drawn from `0..n`, which
/// panics only on an empty range.
#[verifier::external_body]
fn roll_below(n: u32) -> (r: u32)
    requires
        n > 0,
    ensures
        r < n,
{
    rand::Rng::gen_range(&mut rand::thread_rng(), 0..n)
}

/// A glyph drawn at random from `set`.
fn pick(set: &str) -> (c: char)
    requires
        0 < set@.len() <= u32::MAX,
    ensures
        set@.contains(c),
{
    let n = set.unicode_len();
    let i = roll_below(n as u32);
    let c = set.get_char(i as usize);
    assert(set@[i as int] == c);
    c
}

/// Applies the top-row rule to one cell.
pub fn regenerate(v: u8, spawn: bool, keep: bool) -> (r: u8)
    ensures
        r == regen(v, spawn, keep),
        v >= SYM_FALLOFF && v != HEAD && keep ==> r == v - SYM_FALLOFF,
        v < SYM_FALLOFF && v != 0 ==> r == 0,
{
    if v == 0 && spawn {
        HEAD
    } else if v == HEAD {
        HEAD - SYM_FALLOFF
    } else if keep && v >= SYM_FALLOFF {
        v - SYM_FALLOFF
    } else {
        0
    }
}

/// Relies on std's `String::push`: the character is appended.
pub assume_specification[ String::push ](s: &mut String, ch: char)
    ensures
        final(s)@ == old(s)@.push(ch),
;

/// Relies on std's `String::clear`: the string becomes empty (its capacity is kept).
pub assume_specification[ String::clear ](s: &mut String)
    ensures
        final(s)@ == Seq::<char>::empty(),
;

/// The first position after the program name at which `args` holds `arg`, if any.
pub fn find_arg(args: &Vec<String>, arg: &str) -> (r: Option<usize>)
    ensures
        match r {
            Some(i) => 1 <= i < args@.len() && args@[i as int]@ == arg@ && forall|j: int|
                1 <= j < i ==> (#[trigger] args@[j])@ != arg@,
            None => forall|j: int| 1 <= j < args@.len() ==> (#[trigger] args@[j])@ != arg@,
        },
{
    let wanted = arg.to_owned();
    let mut i: usize = 1;
    while i < args.len()
        invariant
            1 <= i,
            wanted@ == arg@,
            forall|j: int| 1 <= j < i && j < args@.len() ==> (#[trigger] args@[j])@ != arg@,
        decreases args@.len() - i,
    {
        if args[i] == wanted {
            return Some(i);
        }
        i = i + 1;
    }
    None
}

/// The value `rng` computes: both arguments go through a multiply-with-carry step, the second
/// one's result fills the high half and the first one's the low half.
pub open spec fn mwc(u: u32, v: u32) -> int {
    let v2 = 36969 * (v % 65536) + v / 65536;
    let u2 = 18000 * (u % 65536) + u / 65536;
    (v2 * 65536) % 0x1_0000_0000 + u2 % 65536
}

/// A cheap pseudo-random number from two seeds.
pub fn rng(u: u32, v: u32) -> (r: u32)
    ensures
        r == mwc(u, v),
{
    assert(v & 65535 == v % 65536 && v >> 16 == v / 65536) by (bit_vector);
    assert(u & 65535 == u % 65536 && u >> 16 == u / 65536) by (bit_vector);
    let v = 36969 * (v & 65535) + (v >> 16);
    let u = 18000 * (u & 65535) + (u >> 16);
    assert((v << 16) as int + (u & 65535) as int <= 0xffff_ffff) by (bit_vector);
    assert(v << 16 == (v * 65536) % 0x1_0000_0000 && u & 65535 == u % 65536) by (bit_vector);
    (v << 16) + (u & 65535)
}

impl Context {
    /// The buffer holds one cell per terminal cell of the last observed size.
    pub open spec fn wf(&self) -> bool {
        self@.cells.len() == self@.cols * self@.rows
    }

    /// An engine that has seen no terminal yet: size 0 x 0, no cells, green Latin glyphs.
    pub fn new() -> (r: Context)
        ensures
            r.wf(),
            r@.frame == Seq::<char>::empty(),
            r@.cells == Seq::<u8>::empty(),
            r@.cols == 0,
            r@.rows == 0,
            !r@.red,
            !r@.jap,
    {
        let size: [u16; 2] = [0, 0];
        assert(size[0] == 0);
        assert(size[1] == 0);
        let r = Context { str: String::new(), buf: Vec::new(), size, red_fg: false, jap_glyph: false };
        assert(r@.cols == 0 && r@.cells.len() == 0);
        assert(r@.cols * r@.rows == 0);
        r
    }

    /// Selects the red color scheme.
    pub fn red_fg(&mut self)
        ensures
            final(self)@ == (RainView { red: true, ..old(self)@ }),
    {
        self.red_fg = true;
    }

    /// Selects the half-width katakana glyph set.
    pub fn jap_glyph(&mut self)
        ensures
            final(self)@ == (RainView { jap: true, ..old(self)@ }),
    {
        self.jap_glyph = true;
    }

    /// The last observed terminal size, as `[columns, rows]`.
    pub fn size(&self) -> (r: [u16; 2])
        ensures
            r[0] == self@.cols,
            r[1] == self@.rows,
    {
        self.size
    }

    /// The cell intensities, row-major.
    pub fn cells(&self) -> (r: &Vec<u8>)
        ensures
            r@ == self@.cells,
    {
        &self.buf
    }

    /// Takes in the terminal size observed now; on a change, the buffer is replaced by an
    /// all-empty one of the new area.
    pub fn renew(&mut self, new_size: [u16; 2])
        requires
            old(self).wf(),
        ensures
            final(self).wf(),
            final(self)@.frame == old(self)@.frame,
            final(self)@.red == old(self)@.red,
            final(self)@.jap == old(self)@.jap,
            final(self)@.cols == new_size[0],
            final(self)@.rows == new_size[1],
            final(self)@.cells == resized(old(self)@, new_size[0], new_size[1]),
            new_size[0] == old(self)@.cols && new_size[1] == old(self)@.rows
                ==> final(self)@.cells == old(self)@.cells,
            !(new_size[0] == old(self)@.cols && new_size[1] == old(self)@.rows)
                ==> final(self)@.cells == blank(new_size[0], new_size[1]),
    {
        if new_size[0] != self.size[0] || new_size[1] != self.size[1] {
            let (c, r) = (new_size[0], new_size[1]);
            assert(c * r <= 0xffff * 0xffff) by (nonlinear_arith)
                requires
                    c <= 0xffff,
                    r <= 0xffff,
            ;
            let total = c as usize * r as usize;
            self.size = new_size;
            self.buf.clear();
            self.buf.resize(total, 0);
            assert(self.buf@ =~= blank(new_size[0], new_size[1]));
        }
    }

    /// A glyph drawn at random from the selected alphabet.
    fn glyph(&self) -> (c: char)
        ensures
            is_glyph(self@.jap, c),
    {
        proof {
            reveal_strlit("abcdefghijklmnopqrstuvwxy");
            reveal_strlit("ABCDEFGHIJKLMNOPQRSTUVWXY");
            reveal_strlit("?!/@#^%&*;<>{[}]-()~|_\\$+=");
            reveal_strlit("｡ｦｧｨｩｪｫｬｭｮｯｰｱｲｳｴｵｶｷｸｹｺｻｼｽｾｿﾀﾁﾂﾃﾄﾅﾆﾇﾈﾉﾊﾋﾌﾍﾎﾏﾐﾑﾒﾓﾔﾕﾖﾗﾘﾙﾚﾛﾜﾝ");
        }
        if self.jap_glyph {
            return pick(KATAKANA_GLYPHS);
        }
        match roll_below(3) {
            0 => pick(LOWER_GLYPHS),
            1 => pick(UPPER_GLYPHS),
            _ => pick(SYMBOL_GLYPHS),
        }
    }

    /// Appends `s` to the frame being built.
    fn write_str(&mut self, s: &str)
        ensures
            final(self)@ == (RainView { frame: old(self)@.frame + s@, ..old(self)@ }),
    {
        self.str.append(s);
    }

    /// Appends one character to the frame being built.
    fn write_char(&mut self, c: char)
        ensures
            final(self)@ == (RainView { frame: old(self)@.frame.push(c), ..old(self)@ }),
    {
        self.str.push(c);
    }

    /// Appends a glyph, preceded by the code of its color.
    fn write_glyph(&mut self, c: char, fg: Color)
        ensures
            final(self)@ == (RainView { frame: old(self)@.frame + color_code(fg) + seq![c], ..old(self)@ }),
    {
        match fg {
            Color::White => self.write_str("\x1b[97m"),
            Color::Red => self.write_str("\x1b[91m"),
            Color::DarkRed => self.write_str("\x1b[31m"),
            Color::Green => self.write_str("\x1b[92m"),
            Color::DarkGreen => self.write_str("\x1b[32m"),
            _ => {},
        }
        self.write_char(c);
        assert(self.str@ =~= old(self).str@ + color_code(fg) + seq![c]);
    }

    /// Renders the whole buffer into the frame, which is cleared first: cursor home, then one
    /// blank or colored glyph per cell, cell `i` showing `glyphs[i]` if it is visible.
    /// The cells are left as they are.
    pub fn render_with(&mut self, glyphs: &Vec<char>)
        requires
            glyphs@.len() == old(self)@.cells.len(),
        ensures
            final(self)@ == (RainView {
                frame: frame_text(old(self)@.cells, old(self)@.red, glyphs@),
                ..old(self)@
            }),
    {
        self.str.clear();
        self.write_str("\x1b[H");
        let len = self.buf.len();
        let mut i: usize = 0;
        while i < len
            invariant
                i <= len,
                len == self.buf@.len(),
                glyphs@.len() == len,
                self.buf@ == old(self).buf@,
                self.size == old(self).size,
                self.red_fg == old(self).red_fg,
                self.jap_glyph == old(self).jap_glyph,
                self.str@ == frame_text(self.buf@.take(i as int), self.red_fg, glyphs@),
            decreases len - i,
        {
            let v = self.buf[i];
            let ghost before = self.str@;
            if v < SYM_FALLOFF {
                self.write_str(" ");
            } else {
                let fg = if v < BRIGHT_FROM {
                    if self.red_fg { Color::DarkRed } else { Color::DarkGreen }
                } else if v < WHITE_FROM {
                    if self.red_fg { Color::Red } else { Color::Green }
                } else {
                    Color::White
                };
                self.write_glyph(glyphs[i], fg);
            }
            proof {
                reveal_strlit(" ");
                let t = self.buf@.take(i + 1);
                assert(t.drop_last() =~= self.buf@.take(i as int));
                assert(self.str@ =~= before + cell_text(v, self.red_fg, glyphs@[i as int]));
            }
            i = i + 1;
        }
        assert(self.buf@.take(len as int) =~= self.buf@);
    }

    /// Renders the whole buffer into the frame, each visible cell showing a glyph drawn at
    /// random from the selected alphabet. The cells are left as they are.
    pub fn render(&mut self)
        ensures
            exists|gs: Seq<char>|
                glyphs_fit(old(self)@.cells, old(self)@.jap, gs) && final(self)@.frame == #[trigger] frame_text(
                    old(self)@.cells,
                    old(self)@.red,
                    gs,
                ),
            final(self)@ == (RainView { frame: final(self)@.frame, ..old(self)@ }),
    {
        let len = self.buf.len();
        let mut glyphs: Vec<char> = Vec::with_capacity(len);
        let mut i: usize = 0;
        while i < len
            invariant
                i <= len,
                len == self.buf@.len(),
                self == old(self),
                glyphs@.len() == i,
                forall|j: int|
                    0 <= j < i && self.buf@[j] >= SYM_FALLOFF ==> is_glyph(self.jap_glyph, #[trigger] glyphs@[j]),
            decreases len - i,
        {
            if self.buf[i] >= SYM_FALLOFF {
                glyphs.push(self.glyph());
            } else {
                glyphs.push(' ');
            }
            i = i + 1;
        }
        self.render_with(&glyphs);
        assert(glyphs_fit(old(self)@.cells, old(self)@.jap, glyphs@));
    }

    /// Shifts every row down by one, bottom row first, in place; the top row keeps its values.
    pub fn shift_down(&mut self)
        requires
            old(self).wf(),
        ensures
            final(self)@ == (RainView { cells: shifted(old(self)@.cells, old(self)@.cols as int), ..old(self)@ }),
            forall|i: int|
                old(self)@.cols <= i < old(self)@.cells.len() ==> #[trigger] final(self)@.cells[i]
                    == old(self)@.cells[i - old(self)@.cols],
    {
        let w = self.size[0] as usize;
        let len = self.buf.len();
        let ghost b = self.buf@;
        let mut i: usize = len;
        while i > w
            invariant
                i <= len,
                i >= w || i == len,
                self.buf@.len() == len,
                b.len() == len,
                self.size == old(self).size,
                self.str == old(self).str,
                self.red_fg == old(self).red_fg,
                self.jap_glyph == old(self).jap_glyph,
                w == self.size[0],
                b == old(self).buf@,
                forall|j: int| 0 <= j < i ==> self.buf@[j] == b[j],
                forall|j: int| i <= j < len && j >= w ==> self.buf@[j] == b[j - w],
            decreases i,
        {
            i = i - 1;
            let v = self.buf[i - w];
            self.buf.set(i, v);
        }
        assert(self.buf@ =~= shifted(b, w as int));
    }

    /// Regenerates the top row from the coin flips `spawn` and `keep`, one of each per column.
    pub fn regenerate_top(&mut self, spawn: &Vec<bool>, keep: &Vec<bool>)
        requires
            old(self).wf(),
            spawn@.len() == old(self)@.cols,
            keep@.len() == old(self)@.cols,
        ensures
            final(self)@ == (RainView {
                cells: regen_top(old(self)@.cells, old(self)@.cols as int, spawn@, keep@),
                ..old(self)@
            }),
    {
        let w = self.size[0] as usize;
        let len = self.buf.len();
        let ghost b = self.buf@;
        let mut i: usize = 0;
        while i < w && i < len
            invariant
                i <= len,
                i <= w,
                self.buf@.len() == len,
                b.len() == len,
                self.size == old(self).size,
                self.str == old(self).str,
                self.red_fg == old(self).red_fg,
                self.jap_glyph == old(self).jap_glyph,
                w == self.size[0],
                spawn@.len() == w,
                keep@.len() == w,
                b == old(self).buf@,
                forall|j: int| 0 <= j < i ==> self.buf@[j] == regen(b[j], spawn@[j], keep@[j]),
                forall|j: int| i <= j < len ==> self.buf@[j] == b[j],
            decreases len - i,
        {
            let v = regenerate(self.buf[i], spawn[i], keep[i]);
            self.buf.set(i, v);
            i = i + 1;
        }
        assert(self.buf@ =~= regen_top(b, w as int, spawn@, keep@));
    }

    /// One advance pass driven by the given coin flips: shift down, then regenerate the top row.
    pub fn advance_with(&mut self, spawn: &Vec<bool>, keep: &Vec<bool>)
        requires
            old(self).wf(),
            spawn@.len() == old(self)@.cols,
            keep@.len() == old(self)@.cols,
        ensures
            final(self)@ == (RainView {
                cells: advanced(old(self)@.cells, old(self)@.cols as int, spawn@, keep@),
                ..old(self)@
            }),
    {
        self.shift_down();
        self.regenerate_top(spawn, keep);
    }

    /// One advance pass with coins flipped at random: an empty top-row cell spawns a head one
    /// time in `SPAWN_ODDS`, a decaying one keeps decaying `KEEP_CHANCE` times in `KEEP_OUT_OF`.
    pub fn advance(&mut self)
        requires
            old(self).wf(),
        ensures
            exists|spawn: Seq<bool>, keep: Seq<bool>|
                spawn.len() == old(self)@.cols && keep.len() == old(self)@.cols && final(self)@ == (
                RainView {
                    cells: #[trigger] advanced(old(self)@.cells, old(self)@.cols as int, spawn, keep),
                    ..old(self)@
                }),
    {
        let w = self.size[0] as usize;
        let mut spawn: Vec<bool> = Vec::with_capacity(w);
        let mut keep: Vec<bool> = Vec::with_capacity(w);
        let mut i: usize = 0;
        while i < w
            invariant
                i <= w,
                spawn@.len() == i,
                keep@.len() == i,
            decreases w - i,
        {
            spawn.push(roll_below(SPAWN_ODDS) == 0);
            keep.push(roll_below(KEEP_OUT_OF) < KEEP_CHANCE);
            i = i + 1;
        }
        self.advance_with(&spawn, &keep);
    }

    /// One tick: take in the terminal size observed now, render the frame, then advance the
    /// buffer. The frame shows the buffer as it was before the advance.
    pub fn print(&mut self, new_size: [u16; 2])
        requires
            old(self).wf(),
        ensures
            final(self).wf(),
            final(self)@.cols == new_size[0],
            final(self)@.rows == new_size[1],
            final(self)@.red == old(self)@.red,
            final(self)@.jap == old(self)@.jap,
            exists|gs: Seq<char>|
                glyphs_fit(resized(old(self)@, new_size[0], new_size[1]), old(self)@.jap, gs)
                    && final(self)@.frame == #[trigger] frame_text(
                    resized(old(self)@, new_size[0], new_size[1]),
                    old(self)@.red,
                    gs,
                ),
            exists|spawn: Seq<bool>, keep: Seq<bool>|
                spawn.len() == new_size[0] && keep.len() == new_size[0] && final(self)@.cells
                    == #[trigger] advanced(
                    resized(old(self)@, new_size[0], new_size[1]),
                    new_size[0] as int,
                    spawn,
                    keep,
                ),
    {
        self.renew(new_size);
        self.render();
        self.advance();
    }

    /// The text of the last rendered frame.
    pub fn frame(&self) -> (r: &str)
        ensures
            r@ == self@.frame,
    {
        self.str.as_str()
    }
}

/// The buffer after `k` advance passes, pass `j` driven by the coins `spawns[j]` and `keeps[j]`.
pub open spec fn advanced_n(
    b: Seq<u8>,
    w: int,
    spawns: Seq<Seq<bool>>,
    keeps: Seq<Seq<bool>>,
    k: nat,
) -> Seq<u8>
    decreases k,
{
    if k == 0 {
        b
    } else {
        advanced(advanced_n(b, w, spawns, keeps, (k - 1) as nat), w, spawns[k - 1], keeps[k - 1])
    }
}

/// A resize to `cols` x `rows` leaves exactly `cols * rows` cells, all of them empty.
pub proof fn lemma_resize_blank(cols: u16, rows: u16)
    ensures
        blank(cols, rows).len() == cols * rows,
        forall|i: int| 0 <= i < cols * rows ==> #[trigger] blank(cols, rows)[i] == 0,
{
}

/// After the shift step, every row `r > 0` holds what row `r - 1` held before it.
pub proof fn lemma_shift_rows(b: Seq<u8>, w: int, r: int)
    requires
        w > 0,
        r > 0,
        (r + 1) * w <= b.len(),
    ensures
        shifted(b, w).subrange(r * w, (r + 1) * w) == b.subrange((r - 1) * w, r * w),
{
    assert(r * w >= w) by (nonlinear_arith)
        requires
            r > 0,
            w > 0,
    ;
    assert((r + 1) * w == r * w + w && (r - 1) * w == r * w - w) by (nonlinear_arith);
    assert(shifted(b, w).subrange(r * w, (r + 1) * w) =~= b.subrange((r - 1) * w, r * w));
}

/// A decaying cell that is chosen to keep decaying loses exactly the fall-off; one below the
/// fall-off is put out to 0, whatever the coins, and no cell ever wraps around.
pub proof fn lemma_decay(v: u8, spawn: bool, keep: bool)
    ensures
        v >= SYM_FALLOFF && v != HEAD && keep ==> regen(v, spawn, keep) == v - SYM_FALLOFF,
        0 < v < SYM_FALLOFF ==> regen(v, spawn, keep) == 0,
        regen(v, spawn, keep) == HEAD
            || regen(v, spawn, keep) == HEAD - SYM_FALLOFF
            || regen(v, spawn, keep) == v - SYM_FALLOFF
            || regen(v, spawn, keep) == 0,
{
}

/// A head in top-row column `c` fades by exactly the fall-off each tick for as long as its
/// decay coins keep coming up: after `k` ticks it holds `255 - k * SYM_FALLOFF`.
pub proof fn lemma_head_lifecycle(
    b: Seq<u8>,
    w: int,
    c: int,
    spawns: Seq<Seq<bool>>,
    keeps: Seq<Seq<bool>>,
    k: nat,
)
    requires
        0 <= c < w,
        c < b.len(),
        b[c] == HEAD,
        k * SYM_FALLOFF <= HEAD,
        forall|j: int| 0 <= j < k ==> (#[trigger] keeps[j])[c],
    ensures
        advanced_n(b, w, spawns, keeps, k).len() == b.len(),
        advanced_n(b, w, spawns, keeps, k)[c] == HEAD - k * SYM_FALLOFF,
    decreases k,
{
    if k > 0 {
        let k1 = (k - 1) as nat;
        lemma_head_lifecycle(b, w, c, spawns, keeps, k1);
        assert(keeps[k1 as int][c]);
    }
}

/// A cell below the fall-off renders as a blank, and unless it is empty (and may spawn) the
/// next regeneration puts it out to 0.
pub proof fn lemma_faded_cell(v: u8, red: bool, g: char, spawn: bool, keep: bool)
    requires
        v < SYM_FALLOFF,
    ensures
        cell_text(v, red, g) == seq![' '],
        v != 0 ==> regen(v, spawn, keep) == 0,
{
}

} // verus!
