//! Reconstructing the call stack of a halted process from its saved frame
//! pointers.
//!
//! Each frame of the traced program starts with the caller's frame pointer,
//! and the word above it holds the address to return to. Starting from the
//! current instruction and frame pointers, the walk names the function that
//! holds the instruction pointer, then moves to the caller's frame, until
//! it has named the entry function. The stack of a traced process may hold
//! anything, so the walk gives up after a fixed number of frames.

use vstd::prelude::*;
use crate::symbols::{Line, Symbol};

verus! {

/// The most frames a backtrace may hold.
pub const MAX_FRAMES: usize = 1024;

/// Name of the function at which every call stack starts.
pub open spec fn entry_function() -> Seq<char> {
    "main"@
}

/// The registers the debugger looks at while a process is halted.
#[derive(Clone, Copy, Debug, PartialEq, Eq, Structural)]
pub struct Registers {
    pub instruction_pointer: usize,
    pub frame_pointer: usize,
}

/// One entry of a backtrace: a function and the source line reached in it.
#[derive(Clone, Debug, PartialEq, Eq)]
pub struct Frame {
    pub function: String,
    pub line: Line,
}

impl Frame {
    /// A copy of this frame.
    pub fn duplicate(&self) -> (copy: Frame)
        ensures
            copy == *self,
    {
        Frame { function: self.function.clone(), line: self.line.duplicate() }
    }
}

/// How a walk over the stack ended.
#[derive(Clone, Debug, PartialEq, Eq)]
pub enum Unwound {
    /// The entry function was reached; the frames run from the innermost to
    /// the entry function.
    Complete(Vec<Frame>),
    /// The walk could not go on; the frames are those named before it broke.
    Broken(Vec<Frame>),
    /// The walk needs to know what the debug information says about this
    /// address.
    NeedSymbol(usize),
    /// The walk needs the memory word at this address.
    NeedWord(usize),
}

/// An [`Unwound`] as a mathematical value.
pub enum UnwoundView {
    Complete(Seq<Frame>),
    Broken(Seq<Frame>),
    NeedSymbol(usize),
    NeedWord(usize),
}

impl View for Unwound {
    type V = UnwoundView;

    open spec fn view(&self) -> UnwoundView {
        match *self {
            Unwound::Complete(frames) => UnwoundView::Complete(frames@),
            Unwound::Broken(frames) => UnwoundView::Broken(frames@),
            Unwound::NeedSymbol(addr) => UnwoundView::NeedSymbol(addr),
            Unwound::NeedWord(addr) => UnwoundView::NeedWord(addr),
        }
    }
}

impl UnwoundView {
    /// The frames named by the walk, if it came to an end.
    pub open spec fn frames(self) -> Seq<Frame> {
        match self {
            UnwoundView::Complete(frames) => frames,
            UnwoundView::Broken(frames) => frames,
            _ => Seq::empty(),
        }
    }

    /// Whether the walk came to an end, rather than asking for more.
    pub open spec fn ended(self) -> bool {
        self is Complete || self is Broken
    }
}

/// Whether the caller's frame can be looked for at frame pointer `fp`: the
/// pointer is aligned and the word above it has an address.
pub open spec fn frame_addressable(fp: usize) -> bool {
    fp % 8 == 0 && fp + 8 <= usize::MAX
}

/// The walk from instruction pointer `ip` and frame pointer `fp`, with
/// `frames` named so far and room for `budget` more.
///
/// `mem` holds the words read from the process, `faults` the addresses at
/// which reading failed, and `symbols` what is known about code addresses.
pub open spec fn walk(
    mem: Map<usize, u64>,
    faults: Set<usize>,
    symbols: Map<usize, Symbol>,
    ip: usize,
    fp: usize,
    frames: Seq<Frame>,
    budget: nat,
) -> UnwoundView
    decreases budget,
{
    if budget == 0 {
        UnwoundView::Broken(frames)
    } else if !symbols.contains_key(ip) {
        UnwoundView::NeedSymbol(ip)
    } else if symbols[ip].function is None || symbols[ip].line is None {
        UnwoundView::Broken(frames)
    } else {
        let named = frames.push(
            Frame { function: symbols[ip].function->0, line: symbols[ip].line->0 },
        );
        let return_slot = (fp + 8) as usize;
        if symbols[ip].function->0@ == entry_function() {
            UnwoundView::Complete(named)
        } else if !frame_addressable(fp) {
            UnwoundView::Broken(named)
        } else if !mem.contains_key(return_slot) {
            if faults.contains(return_slot) {
                UnwoundView::Broken(named)
            } else {
                UnwoundView::NeedWord(return_slot)
            }
        } else if !mem.contains_key(fp) {
            if faults.contains(fp) {
                UnwoundView::Broken(named)
            } else {
                UnwoundView::NeedWord(fp)
            }
        } else {
            walk(
                mem,
                faults,
                symbols,
                mem[return_slot] as usize,
                mem[fp] as usize,
                named,
                (budget - 1) as nat,
            )
        }
    }
}

/// The backtrace of a process halted with registers `regs`.
pub open spec fn backtrace(
    mem: Map<usize, u64>,
    faults: Set<usize>,
    symbols: Map<usize, Symbol>,
    regs: Registers,
) -> UnwoundView {
    walk(
        mem,
        faults,
        symbols,
        regs.instruction_pointer,
        regs.frame_pointer,
        Seq::empty(),
        MAX_FRAMES as nat,
    )
}

/// What holds of every walk that came to an end: it kept the frames it
/// started with, named at most `budget` more, and, where it is complete,
/// named the entry function last and nowhere before.
proof fn lemma_walk(
    mem: Map<usize, u64>,
    faults: Set<usize>,
    symbols: Map<usize, Symbol>,
    ip: usize,
    fp: usize,
    frames: Seq<Frame>,
    budget: nat,
)
    ensures
        ({
            let end = walk(mem, faults, symbols, ip, fp, frames, budget);
            let all = end.frames();
            &&& end.ended() ==> frames.len() <= all.len() <= frames.len() + budget
            &&& end.ended() ==> forall|i: int| 0 <= i < frames.len() ==> all[i] == frames[i]
            &&& end.ended() && all.len() > frames.len() ==> symbols.contains_key(ip)
                && symbols[ip].function is Some && symbols[ip].line is Some
                && all[frames.len() as int] == (Frame {
                function: symbols[ip].function->0,
                line: symbols[ip].line->0,
            })
            &&& end is Complete ==> all.len() > frames.len() && all.last().function@
                == entry_function()
            &&& end is Complete ==> forall|i: int|
                frames.len() <= i < all.len() - 1 ==> (#[trigger] all[i]).function@
                    != entry_function()
        }),
    decreases budget,
{
    if budget == 0 || !symbols.contains_key(ip) || symbols[ip].function is None
        || symbols[ip].line is None {
    } else {
        let named = frames.push(
            Frame { function: symbols[ip].function->0, line: symbols[ip].line->0 },
        );
        let return_slot = (fp + 8) as usize;
        if symbols[ip].function->0@ != entry_function() && frame_addressable(fp)
            && mem.contains_key(return_slot) && mem.contains_key(fp) {
            lemma_walk(
                mem,
                faults,
                symbols,
                mem[return_slot] as usize,
                mem[fp] as usize,
                named,
                (budget - 1) as nat,
            );
            let end = walk(mem, faults, symbols, ip, fp, frames, budget);
            let all = end.frames();
            if end.ended() {
                assert(all[frames.len() as int] == named[frames.len() as int]);
                assert forall|i: int| 0 <= i < frames.len() implies all[i] == frames[i] by {
                    assert(all[i] == named[i]);
                }
            }
        }
    }
}

/// A backtrace never holds more than `MAX_FRAMES` frames: the walk cannot
/// loop, whatever the stack holds.
pub proof fn law_backtrace_is_bounded(
    mem: Map<usize, u64>,
    faults: Set<usize>,
    symbols: Map<usize, Symbol>,
    regs: Registers,
)
    ensures
        backtrace(mem, faults, symbols, regs).frames().len() <= MAX_FRAMES,
{
    lemma_walk(
        mem,
        faults,
        symbols,
        regs.instruction_pointer,
        regs.frame_pointer,
        Seq::empty(),
        MAX_FRAMES as nat,
    );
}

/// A backtrace that names any frame names first the function in which the
/// process is halted: the one that holds the instruction pointer.
pub proof fn law_backtrace_starts_where_halted(
    mem: Map<usize, u64>,
    faults: Set<usize>,
    symbols: Map<usize, Symbol>,
    regs: Registers,
)
    requires
        backtrace(mem, faults, symbols, regs).frames().len() > 0,
    ensures
        symbols.contains_key(regs.instruction_pointer),
        symbols[regs.instruction_pointer].function == Some(
            backtrace(mem, faults, symbols, regs).frames()[0].function,
        ),
        symbols[regs.instruction_pointer].line == Some(
            backtrace(mem, faults, symbols, regs).frames()[0].line,
        ),
{
    lemma_walk(
        mem,
        faults,
        symbols,
        regs.instruction_pointer,
        regs.frame_pointer,
        Seq::empty(),
        MAX_FRAMES as nat,
    );
}

/// Where the debug information can place the instruction at which the
/// process is halted, a backtrace that came to an end is not empty and
/// starts with the function that holds that instruction, before any of its
/// callers.
pub proof fn law_halted_function_is_named(
    mem: Map<usize, u64>,
    faults: Set<usize>,
    symbols: Map<usize, Symbol>,
    regs: Registers,
)
    requires
        backtrace(mem, faults, symbols, regs).ended(),
        symbols.contains_key(regs.instruction_pointer),
        symbols[regs.instruction_pointer].function is Some,
        symbols[regs.instruction_pointer].line is Some,
    ensures
        backtrace(mem, faults, symbols, regs).frames().len() > 0,
        backtrace(mem, faults, symbols, regs).frames()[0] == (Frame {
            function: symbols[regs.instruction_pointer].function->0,
            line: symbols[regs.instruction_pointer].line->0,
        }),
{
    let ip = regs.instruction_pointer;
    let fp = regs.frame_pointer;
    let named = Seq::<Frame>::empty().push(
        Frame { function: symbols[ip].function->0, line: symbols[ip].line->0 },
    );
    let return_slot = (fp + 8) as usize;
    if symbols[ip].function->0@ != entry_function() && frame_addressable(fp) && mem.contains_key(
        return_slot,
    ) && mem.contains_key(fp) {
        lemma_walk(
            mem,
            faults,
            symbols,
            mem[return_slot] as usize,
            mem[fp] as usize,
            named,
            (MAX_FRAMES - 1) as nat,
        );
        let all = backtrace(mem, faults, symbols, regs).frames();
        assert(all[0] == named[0]);
    }
}

/// A complete backtrace ends with the entry function and names it nowhere
/// else: the walk stops as soon as it reaches it.
pub proof fn law_complete_backtrace_ends_at_entry(
    mem: Map<usize, u64>,
    faults: Set<usize>,
    symbols: Map<usize, Symbol>,
    regs: Registers,
)
    requires
        backtrace(mem, faults, symbols, regs) is Complete,
    ensures
        backtrace(mem, faults, symbols, regs).frames().len() > 0,
        backtrace(mem, faults, symbols, regs).frames().last().function@ == entry_function(),
        forall|i: int|
            0 <= i < backtrace(mem, faults, symbols, regs).frames().len() - 1 ==> (
            #[trigger] backtrace(mem, faults, symbols, regs).frames()[i]).function@
                != entry_function(),
{
    lemma_walk(
        mem,
        faults,
        symbols,
        regs.instruction_pointer,
        regs.frame_pointer,
        Seq::empty(),
        MAX_FRAMES as nat,
    );
}

} // verus!
