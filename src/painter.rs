use vstd::arithmetic::div_mod::{lemma_fundamental_div_mod, lemma_fundamental_div_mod_converse};
use vstd::prelude::*;

verus! {

/// What a controller tells a running render.
#[derive(Debug, Clone, Copy, PartialEq, Eq, Structural)]
pub enum PainterCommand {
    Continue,
    Quit,
}

/// Source of commands that a render polls between pixels.
pub trait PainterController: Send {
    fn receive_command(&self) -> PainterCommand;
}

/// Decides which pixels a rendering pass computes.
pub trait PixelController: Send + Sync {
    fn calculate_pixel(&self, x: usize, y: usize) -> bool;
}

/// A pixel sink that ignores what it receives.
#[derive(Debug)]
pub struct PassivePainterTarget {}

/// A controller that never asks the render to stop.
#[derive(Debug)]
pub struct PassivePainterController {}

impl PainterController for PassivePainterController {
    fn receive_command(&self) -> (r: PainterCommand)
        ensures
            r == PainterCommand::Continue,
    {
        PainterCommand::Continue
    }
}

/// A pixel map that asks for every pixel.
#[derive(Debug)]
pub struct PassivePixelController {}

impl PixelController for PassivePixelController {
    fn calculate_pixel(&self, x: usize, y: usize) -> (r: bool)
        ensures
            r,
    {
        true
    }
}

/// What a worker does for one pixel.
#[derive(Debug, Clone, Copy, PartialEq, Eq, Structural)]
pub enum PixelAction {
    /// The render was cancelled: an opaque black pixel.
    Blank,
    /// Sample the pixel.
    Render,
    /// Not computed in this pass: a fully transparent black pixel.
    Skip,
}

/// Cancellation wins over the pixel map; the pixel map decides the rest.
pub fn pixel_action(cancelled: bool, calculate: bool) -> (r: PixelAction)
    ensures
        cancelled ==> r == PixelAction::Blank,
        !cancelled && calculate ==> r == PixelAction::Render,
        !cancelled && !calculate ==> r == PixelAction::Skip,
{
    if cancelled {
        PixelAction::Blank
    } else if calculate {
        PixelAction::Render
    } else {
        PixelAction::Skip
    }
}

/// Largest `r` with `r * r <= n`.
pub open spec fn is_floor_sqrt(n: int, r: int) -> bool {
    0 <= r && r * r <= n < (r + 1) * (r + 1)
}

/// The integer square root, rounded down.
pub fn floor_sqrt(n: usize) -> (r: usize)
    ensures
        is_floor_sqrt(n as int, r as int),
{
    // Binary search on [lo, hi): lo * lo <= n < hi * hi.
    let m = n as u64;
    let mut lo: u64 = 0;
    let mut hi: u64 = if m < 0xFFFF_FFFF {
        m + 1
    } else {
        0x1_0000_0000
    };
    assert(m < hi * hi) by (nonlinear_arith)
        requires
            hi == m + 1 || (hi == 0x1_0000_0000 && m <= u64::MAX),
    ;
    while lo + 1 < hi
        invariant
            lo < hi <= 0x1_0000_0000,
            lo * lo <= m,
            m < hi * hi,
        decreases hi - lo,
    {
        let mid = lo + (hi - lo) / 2;
        assert(mid * mid <= 0xFFFF_FFFF * 0xFFFF_FFFF) by (nonlinear_arith)
            requires
                mid <= 0xFFFF_FFFF,
        ;
        if mid * mid <= m {
            lo = mid;
        } else {
            hi = mid;
        }
    }
    assert(lo <= m) by (nonlinear_arith)
        requires
            lo * lo <= m,
    ;
    lo as usize
}

/// Render settings: image size, samples per pixel (a square number, taken
/// as a grid of `sqrt_spp` by `sqrt_spp` jittered cells), gamma correction
/// and the number of worker threads (0: one per processor).
#[derive(Debug, Clone, Copy)]
pub struct Painter {
    width: usize,
    height: usize,
    samples: usize,
    gamma: bool,
    threads: usize,
    parallel: bool,
    sqrt_spp: usize,
}

impl Painter {
    pub closed spec fn spec_width(&self) -> usize {
        self.width
    }

    pub closed spec fn spec_height(&self) -> usize {
        self.height
    }

    pub closed spec fn spec_samples(&self) -> usize {
        self.samples
    }

    pub closed spec fn spec_sqrt_spp(&self) -> usize {
        self.sqrt_spp
    }

    pub closed spec fn spec_gamma(&self) -> bool {
        self.gamma
    }

    pub closed spec fn spec_threads(&self) -> usize {
        self.threads
    }

    pub closed spec fn spec_parallel(&self) -> bool {
        self.parallel
    }

    /// The sample count is the square of the grid side.
    pub open spec fn wf(&self) -> bool {
        self.spec_samples() as int == self.spec_sqrt_spp() as int * self.spec_sqrt_spp() as int
    }

    /// 25 samples (a 5 by 5 grid), gamma on, one thread per processor.
    pub fn new(width: usize, height: usize) -> (r: Self)
        ensures
            r.wf(),
            r.spec_width() == width,
            r.spec_height() == height,
            r.spec_gamma(),
            r.spec_samples() == 25,
            r.spec_sqrt_spp() == 5,
            r.spec_threads() == 0,
            r.spec_parallel(),
    {
        Self { width, height, gamma: true, samples: 25, threads: 0, parallel: true, sqrt_spp: 5 }
    }

    pub fn gamma(self, gamma: bool) -> (r: Self)
        ensures
            r.spec_gamma() == gamma,
            r.wf() == self.wf(),
            r.spec_width() == self.spec_width(),
            r.spec_height() == self.spec_height(),
            r.spec_samples() == self.spec_samples(),
            r.spec_sqrt_spp() == self.spec_sqrt_spp(),
            r.spec_threads() == self.spec_threads(),
            r.spec_parallel() == self.spec_parallel(),
    {
        let mut p = self;
        p.gamma = gamma;
        p
    }

    /// Rounds the request down to a square number of samples.
    pub fn samples(self, samples_requested: usize) -> (r: Self)
        ensures
            r.wf(),
            is_floor_sqrt(samples_requested as int, r.spec_sqrt_spp() as int),
            r.spec_width() == self.spec_width(),
            r.spec_height() == self.spec_height(),
            r.spec_gamma() == self.spec_gamma(),
            r.spec_threads() == self.spec_threads(),
            r.spec_parallel() == self.spec_parallel(),
    {
        let mut p = self;
        let s = floor_sqrt(samples_requested);
        assert(s * s <= samples_requested);
        p.sqrt_spp = s;
        p.samples = s * s;
        p
    }

    pub fn threads(self, threads: usize) -> (r: Self)
        ensures
            r.spec_threads() == threads,
            r.wf() == self.wf(),
            r.spec_width() == self.spec_width(),
            r.spec_height() == self.spec_height(),
            r.spec_samples() == self.spec_samples(),
            r.spec_sqrt_spp() == self.spec_sqrt_spp(),
            r.spec_gamma() == self.spec_gamma(),
            r.spec_parallel() == self.spec_parallel(),
    {
        let mut p = self;
        p.threads = threads;
        p
    }

    pub fn parallel(self, parallel: bool) -> (r: Self)
        ensures
            r.spec_parallel() == parallel,
            r.wf() == self.wf(),
            r.spec_width() == self.spec_width(),
            r.spec_height() == self.spec_height(),
            r.spec_samples() == self.spec_samples(),
            r.spec_sqrt_spp() == self.spec_sqrt_spp(),
            r.spec_gamma() == self.spec_gamma(),
            r.spec_threads() == self.spec_threads(),
    {
        let mut p = self;
        p.parallel = parallel;
        p
    }

    pub fn width(&self) -> (r: usize)
        ensures
            r == self.spec_width(),
    {
        self.width
    }

    pub fn height(&self) -> (r: usize)
        ensures
            r == self.spec_height(),
    {
        self.height
    }

    pub fn sample_count(&self) -> (r: usize)
        ensures
            r == self.spec_samples(),
    {
        self.samples
    }

    pub fn sqrt_spp(&self) -> (r: usize)
        ensures
            r == self.spec_sqrt_spp(),
    {
        self.sqrt_spp
    }

    pub fn uses_gamma(&self) -> (r: bool)
        ensures
            r == self.spec_gamma(),
    {
        self.gamma
    }

    pub fn is_parallel(&self) -> (r: bool)
        ensures
            r == self.spec_parallel(),
    {
        self.parallel
    }

    /// Worker threads for a machine with `cpus` processors: one more than
    /// the setting, or than `cpus` when the setting is 0.
    pub fn worker_count(&self, cpus: usize) -> (r: usize)
        ensures
            r == if self.spec_threads() == 0 {
                sat_inc(cpus)
            } else {
                sat_inc(self.spec_threads())
            },
            r >= 1,
    {
        if self.threads == 0 {
            inc(cpus)
        } else {
            inc(self.threads)
        }
    }

    /// The rows that worker `start` of `step` renders, in order:
    /// `start, start + step, ...`, every one below the height.
    pub fn worker_rows(&self, start: usize, step: usize) -> (r: Vec<usize>)
        requires
            step > 0,
        ensures
            forall|k: int| 0 <= k < r@.len() ==> #[trigger] r@[k] == start + k * step,
            forall|k: int| 0 <= k < r@.len() ==> #[trigger] r@[k] < self.spec_height(),
            start + r@.len() * step >= self.spec_height(),
    {
        let mut rows: Vec<usize> = Vec::new();
        let mut y: usize = start;
        assert(start + rows@.len() * step == start) by (nonlinear_arith)
            requires
                rows@.len() == 0,
        ;
        while y < self.height
            invariant
                step > 0,
                y as int == start + rows@.len() * step,
                forall|k: int| 0 <= k < rows@.len() ==> #[trigger] rows@[k] == start + k * step,
                forall|k: int| 0 <= k < rows@.len() ==> #[trigger] rows@[k] < self.spec_height(),
            decreases self.height - y,
        {
            rows.push(y);
            assert(start + rows@.len() * step == y + step) by (nonlinear_arith)
                requires
                    y as int == start + (rows@.len() - 1) * step,
            ;
            if self.height - y <= step {
                return rows;
            }
            y = y + step;
        }
        rows
    }
}

/// Relies on `num_cpus::get`: the number of processors this process may use.
#[verifier::external_body]
fn available_cpus() -> usize {
    num_cpus::get()
}

impl Painter {
    /// Worker threads for this machine, as `worker_count` decides.
    pub fn thread_count(&self) -> (r: usize)
        ensures
            r >= 1,
            self.spec_threads() != 0 ==> r == sat_inc(self.spec_threads()),
    {
        self.worker_count(available_cpus())
    }
}

pub open spec fn sat_inc(n: usize) -> usize {
    if n < usize::MAX {
        (n + 1) as usize
    } else {
        n
    }
}

fn inc(n: usize) -> (r: usize)
    ensures
        r == sat_inc(n),
        r >= 1,
{
    if n < usize::MAX {
        n + 1
    } else {
        n
    }
}

/// Row `q` of the image comes from worker `i` of `step`, which rendered it as
/// its line `q / step`, and that worker rendered `lines` lines.
pub open spec fn from_worker(q: int, i: int, step: int, lines: int) -> bool {
    q % step == i && q / step < lines
}

proof fn lemma_cell(q: int, x: int, w: int, rows: int)
    requires
        0 <= q < rows,
        0 <= x < w,
    ensures
        (q * w + x) / w == q,
        (q * w + x) % w == x,
        0 <= q * w + x < rows * w,
{
    lemma_fundamental_div_mod_converse(q * w + x, w, q, x);
    assert(0 <= q * w + x < rows * w) by (nonlinear_arith)
        requires
            0 <= q < rows,
            0 <= x < w,
    ;
}

/// Copies the lines that worker `i` of `step` rendered (`pixels`, rows of
/// `width`, its lines being image rows `i, i + step, ...`) into their rows of
/// the image `result`; rows past the image are left out.
pub fn append<T: Copy>(result: &mut Vec<T>, pixels: &Vec<T>, i: usize, step: usize, width: usize)
    requires
        width > 0,
        i < step,
        old(result)@.len() as int % (width as int) == 0,
    ensures
        final(result)@.len() == old(result)@.len(),
        forall|q: int, x: int|
            0 <= q < old(result)@.len() as int / (width as int) && 0 <= x < width
                ==> #[trigger] final(result)@[q * (width as int) + x] == if from_worker(
                q,
                i as int,
                step as int,
                pixels@.len() as int / (width as int),
            ) {
                pixels@[(q / (step as int)) * (width as int) + x]
            } else {
                old(result)@[q * (width as int) + x]
            },
{
    let total = result.len();
    let given = pixels.len();
    let rows = total / width;
    let lines = given / width;
    let ghost w = width as int;
    let ghost st = step as int;
    let ghost orig = result@;
    let ghost n = orig.len() as int;
    let ghost pn = pixels@.len() as int;
    let ghost r = rows as int;
    let ghost l = lines as int;
    proof {
        lemma_fundamental_div_mod(n, w);
        lemma_fundamental_div_mod(pn, w);
        assert(r * w == n) by (nonlinear_arith)
            requires
                n == w * r + n % w,
                n % w == 0,
        ;
        assert(l * w <= pn) by (nonlinear_arith)
            requires
                pn == w * l + pn % w,
                pn % w >= 0,
        ;
    }
    let mut line: usize = 0;
    let mut q: usize = i;
    let mut more = true;
    while more && line < lines && q < rows
        invariant
            w == width as int,
            st == step as int,
            r == rows as int,
            l == lines as int,
            n == orig.len(),
            pn == pixels@.len(),
            width > 0,
            i < step,
            r * w == n,
            l * w <= pn,
            l == pn / w,
            n % w == 0,
            r == n / w,
            orig == old(result)@,
            result@.len() == n,
            n <= usize::MAX,
            pn <= usize::MAX,
            line <= lines,
            more ==> q as int == (line as int) * st + i,
            !more ==> (line as int) * st + i >= r,
            forall|qq: int, x: int|
                0 <= qq < r && 0 <= x < w ==> #[trigger] result@[qq * w + x] == if from_worker(
                    qq,
                    i as int,
                    st,
                    line as int,
                ) {
                    pixels@[(qq / st) * w + x]
                } else {
                    orig[qq * w + x]
                },
        decreases lines - line,
    {
        let ghost qi = q as int;
        let ghost li = line as int;
        proof {
            lemma_fundamental_div_mod_converse(qi, st, li, i as int);
            assert(qi * w + w <= r * w) by (nonlinear_arith)
                requires
                    qi < r,
                    w > 0,
            ;
            assert(li * w + w <= l * w) by (nonlinear_arith)
                requires
                    li < l,
                    w > 0,
            ;
        }
        let dest = q * width;
        let src = line * width;
        let mut x: usize = 0;
        while x < width
            invariant
                w == width as int,
                st == step as int,
                r == rows as int,
                l == lines as int,
                pn == pixels@.len(),
                n <= usize::MAX,
                pn <= usize::MAX,
                width > 0,
                i < step,
                r * w == n,
                dest as int == qi * w,
                src as int == li * w,
                qi * w + w <= r * w,
                li * w + w <= l * w,
                l * w <= pn,
                qi < r,
                qi == q,
                li == line,
                qi % st == i,
                qi / st == li,
                result@.len() == n,
                x <= width,
                forall|qq: int, xx: int|
                    0 <= qq < r && 0 <= xx < w ==> #[trigger] result@[qq * w + xx] == if qq == qi
                        && xx < x {
                        pixels@[(qq / st) * w + xx]
                    } else if from_worker(qq, i as int, st, li) {
                        pixels@[(qq / st) * w + xx]
                    } else {
                        orig[qq * w + xx]
                    },
            decreases width - x,
        {
            result[dest + x] = pixels[src + x];
            proof {
                assert forall|qq: int, xx: int| 0 <= qq < r && 0 <= xx < w implies #[trigger] result@[qq
                    * w + xx] == if qq == qi && xx < x + 1 {
                    pixels@[(qq / st) * w + xx]
                } else if from_worker(qq, i as int, st, li) {
                    pixels@[(qq / st) * w + xx]
                } else {
                    orig[qq * w + xx]
                } by {
                    lemma_cell(qq, xx, w, r);
                    lemma_cell(qi, x as int, w, r);
                }
            }
            x = x + 1;
        }
        proof {
            assert forall|qq: int, xx: int| 0 <= qq < r && 0 <= xx < w implies #[trigger] result@[qq
                * w + xx] == if from_worker(qq, i as int, st, li + 1) {
                pixels@[(qq / st) * w + xx]
            } else {
                orig[qq * w + xx]
            } by {
                if qq % st == i && qq / st == li {
                    lemma_fundamental_div_mod(qq, st);
                    assert(qq == qi);
                }
            }
        }
        assert(qi + st == (li + 1) * st + i) by (nonlinear_arith)
            requires
                qi == li * st + i,
        ;
        if rows - q <= step {
            more = false;
        } else {
            q = q + step;
        }
        line = line + 1;
    }
    proof {
        let li = line as int;
        let qi = q as int;
        assert forall|qq: int, xx: int| 0 <= qq < r && 0 <= xx < w implies #[trigger] result@[qq * w
            + xx] == if from_worker(qq, i as int, st, l) {
            pixels@[(qq / st) * w + xx]
        } else {
            orig[qq * w + xx]
        } by {
            if qq % st == i && li <= qq / st < l {
                assert(li * st + i >= r);
                lemma_fundamental_div_mod(qq, st);
                assert(qq >= li * st + i) by (nonlinear_arith)
                    requires
                        qq == st * (qq / st) + i,
                        qq / st >= li,
                        st > 0,
                ;
            }
        }
    }
}

} // verus!
