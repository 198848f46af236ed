//! Reconstruction of an annotated, symbolized stack trace from a captured
//! machine state.
use vstd::prelude::*;

use crate::addr2line::{insert_all, lemma_loaded_batch_cached, load_outcome, Addr2LineError, Addr2LineInfo, Addr2LineRegistry};
use crate::snapshot::{SavedContext, Stacktrace};
use crate::trap_info::TrapMetadata;

verus! {

/// The trap-table entry that a frame was found in, with the trap id that its
/// register window held.
#[derive(Debug, Clone, Copy, PartialEq, Eq, Structural)]
pub struct TrapInfo {
    pub class: u8,
    pub trap_id: u8,
}

/// One row of a reconstructed stack trace.
#[derive(Debug)]
pub struct StackFrameInfo {
    pub address: u32,
    pub is_trap: Option<TrapInfo>,
    pub info: Addr2LineInfo,
}

/// A reconstructed stack trace: the current frame, its caller, then one row
/// per saved context in the order captured.
#[derive(Debug)]
pub struct BackTraceInfo {
    pub stack_frames: Vec<StackFrameInfo>,
}

/// The trap annotation of a frame at `address` whose register window held
/// `d15`: present only inside the trap table, with the trap id cut to a byte.
pub open spec fn trap_info_at(trap: TrapMetadata, address: u32, d15: u32) -> Option<TrapInfo> {
    match trap.spec_trap_class(address) {
        Some(class) => Some(TrapInfo { class, trap_id: d15 as u8 }),
        None => None,
    }
}

/// The trap annotation of a saved context: only an upper half carries a trap
/// id, so a lower half never has one.
pub open spec fn saved_trap_info(trap: TrapMetadata, ctx: SavedContext) -> Option<TrapInfo> {
    match ctx {
        SavedContext::Upper(u) => trap_info_at(trap, u.a11, u.d15),
        SavedContext::Lower(_) => None,
    }
}

/// The address and trap annotation of each row, in output order: the current
/// program counter, the link register (never annotated), then each saved
/// context.
pub open spec fn frame_rows(st: Stacktrace, trap: TrapMetadata) -> Seq<(u32, Option<TrapInfo>)> {
    seq![
        (st.current_pc, trap_info_at(trap, st.current_pc, st.current_upper.d15)),
        (st.current_upper.a11, None),
    ] + st.stack_frames@.map_values(
        |c: SavedContext| (c.spec_return_address(), saved_trap_info(trap, c)),
    )
}

/// `frames` are the rows `rows`, each with the information cached for its
/// address.
pub open spec fn frames_match(
    frames: Seq<StackFrameInfo>,
    rows: Seq<(u32, Option<TrapInfo>)>,
    cache: Map<u32, (Seq<char>, Seq<char>)>,
) -> bool {
    &&& frames.len() == rows.len()
    &&& forall|i: int|
        0 <= i < rows.len() ==> {
            &&& (#[trigger] frames[i]).address == rows[i].0
            &&& frames[i].is_trap == rows[i].1
            &&& cache.contains_key(rows[i].0)
            &&& frames[i].info@ == cache[rows[i].0]
        }
}

/// The outcome of symbolizing `rows` against `cache`: the frames when every
/// address is cached, else the first address that is not.
pub open spec fn symbolized(
    r: Result<BackTraceInfo, Addr2LineError>,
    rows: Seq<(u32, Option<TrapInfo>)>,
    cache: Map<u32, (Seq<char>, Seq<char>)>,
) -> bool {
    match r {
        Ok(bt) => frames_match(bt.stack_frames@, rows, cache),
        Err(e) => exists|i: int|
            0 <= i < rows.len() && !cache.contains_key(#[trigger] rows[i].0) && e
                == Addr2LineError::UnresolvedAddress(rows[i].0) && forall|j: int|
                0 <= j < i ==> cache.contains_key(#[trigger] rows[j].0),
    }
}

fn trap_info_for(trap: &TrapMetadata, address: u32, d15: u32) -> (r: Option<TrapInfo>)
    ensures
        r == trap_info_at(*trap, address, d15),
{
    match trap.trap_class(address) {
        Some(class) => Some(TrapInfo { class, trap_id: d15 as u8 }),
        None => None,
    }
}

impl BackTraceInfo {
    /// The rows of the trace, in output order.
    pub fn stack_frames(&self) -> (r: &Vec<StackFrameInfo>)
        ensures
            r == &self.stack_frames,
    {
        &self.stack_frames
    }
}

impl Stacktrace {
    /// Builds the annotated rows of this trace and attaches the symbol
    /// information that `registry` holds for each address. Fails with the
    /// first address that `registry` has not loaded.
    pub fn symbolize(&self, trap: &TrapMetadata, registry: &Addr2LineRegistry) -> (r: Result<
        BackTraceInfo,
        Addr2LineError,
    >)
        ensures
            symbolized(r, frame_rows(*self, *trap), registry.cache()),
    {
        let ghost rows = frame_rows(*self, *trap);
        let ghost cache = registry.cache();
        let mut frames: Vec<StackFrameInfo> = Vec::new();

        let pc = self.current_pc;
        let pc_info = match registry.cached_info(pc) {
            Ok(info) => info,
            Err(e) => {
                assert(!cache.contains_key(rows[0].0));
                return Err(e);
            },
        };
        frames.push(
            StackFrameInfo {
                address: pc,
                is_trap: trap_info_for(trap, pc, self.current_upper.d15),
                info: pc_info,
            },
        );

        let caller = self.current_upper.a11;
        let caller_info = match registry.cached_info(caller) {
            Ok(info) => info,
            Err(e) => {
                assert(!cache.contains_key(rows[1].0));
                assert(forall|j: int| 0 <= j < 1 ==> cache.contains_key(#[trigger] rows[j].0));
                return Err(e);
            },
        };
        frames.push(StackFrameInfo { address: caller, is_trap: None, info: caller_info });

        let n = self.stack_frames.len();
        let mut i: usize = 0;
        while i < n
            invariant
                n == self.stack_frames@.len(),
                rows == frame_rows(*self, *trap),
                cache == registry.cache(),
                0 <= i <= n,
                frames_match(frames@, rows.subrange(0, i + 2), cache),
            decreases n - i,
        {
            let ctx = &self.stack_frames[i];
            let address = ctx.return_address();
            let is_trap = match ctx {
                SavedContext::Upper(u) => trap_info_for(trap, u.a11, u.d15),
                SavedContext::Lower(_) => None,
            };
            assert(rows[i + 2] == (address, is_trap));
            let info = match registry.cached_info(address) {
                Ok(info) => info,
                Err(e) => {
                    assert forall|j: int| 0 <= j < i + 2 implies cache.contains_key(
                        #[trigger] rows[j].0,
                    ) by {
                        assert(rows.subrange(0, i + 2)[j] == rows[j]);
                        assert(frames@[j].address == rows[j].0);
                    }
                    assert(!cache.contains_key(rows[i + 2].0));
                    return Err(e);
                },
            };
            frames.push(StackFrameInfo { address, is_trap, info });
            i = i + 1;
            assert(forall|j: int|
                0 <= j < i + 2 ==> #[trigger] rows.subrange(0, i + 2)[j] == rows[j]);
        }
        assert(rows.subrange(0, n + 2) =~= rows);
        Ok(BackTraceInfo { stack_frames: frames })
    }
}

/// Reconstructs the stack trace of `snapshot` with the trap table `trap` of
/// its binary and the registry of that binary, given what the symbol decoder
/// printed when run once on `snapshot.required_addresses()`.
///
/// The decoder output is loaded into `registry` in one batch, then every row
/// is symbolized; a failed load aborts the whole reconstruction.
pub fn reconstruct(
    snapshot: &Stacktrace,
    trap: &TrapMetadata,
    registry: &mut Addr2LineRegistry,
    decoder_output: &[u8],
) -> (r: Result<BackTraceInfo, Addr2LineError>)
    ensures
        final(registry).spec_elf_file() == old(registry).spec_elf_file(),
        match load_outcome(snapshot.spec_required_addresses(), decoder_output@) {
            Err(e) => r == Err::<BackTraceInfo, Addr2LineError>(e) && final(registry).cache() == old(
                registry,
            ).cache(),
            Ok(infos) => {
                &&& final(registry).cache() == insert_all(
                    old(registry).cache(),
                    snapshot.spec_required_addresses(),
                    infos,
                )
                &&& r matches Ok(bt) && frames_match(
                    bt.stack_frames@,
                    frame_rows(*snapshot, *trap),
                    final(registry).cache(),
                )
            },
        },
{
    let addresses = snapshot.required_addresses();
    match registry.load(&addresses, decoder_output) {
        Ok(()) => {},
        Err(e) => return Err(e),
    }
    let ghost required = snapshot.spec_required_addresses();
    let ghost rows = frame_rows(*snapshot, *trap);
    proof {
        let infos = load_outcome(required, decoder_output@)->Ok_0;
        lemma_loaded_batch_cached(old(registry).cache(), required, infos);
        let n: int = snapshot.stack_frames@.len() as int;
        assert forall|i: int| 0 <= i < rows.len() implies registry.cache().contains_key(
            #[trigger] rows[i].0,
        ) by {
            if i == 0 {
                assert(required[n] == rows[i].0);
            } else if i == 1 {
                assert(required[n + 1] == rows[i].0);
            } else {
                assert(required[i - 2] == rows[i].0);
            }
        }
    }
    snapshot.symbolize(trap, registry)
}

/// A snapshot with no saved contexts gives exactly two rows: the current
/// program counter, then the link register, which is never annotated.
pub proof fn lemma_no_saved_frames(st: Stacktrace, trap: TrapMetadata)
    requires
        st.stack_frames@.len() == 0,
    ensures
        frame_rows(st, trap).len() == 2,
        frame_rows(st, trap)[0].0 == st.current_pc,
        frame_rows(st, trap)[1] == (st.current_upper.a11, None::<TrapInfo>),
{
}

/// A current program counter 64 bytes into the trap table is annotated with
/// class 2 and the trap id of the current register window.
pub proof fn lemma_current_frame_in_trap_table(st: Stacktrace, trap: TrapMetadata)
    requires
        trap.trap_symbol + 64 <= u32::MAX,
        st.current_pc == trap.trap_symbol + 64,
    ensures
        frame_rows(st, trap)[0].1 == Some(TrapInfo { class: 2, trap_id: st.current_upper.d15 as u8 }),
{
}

/// A saved lower context never gives a trap annotation, wherever its return
/// address lies.
pub proof fn lemma_lower_context_untrapped(st: Stacktrace, trap: TrapMetadata, i: int)
    requires
        0 <= i < st.stack_frames@.len(),
        st.stack_frames@[i] is Lower,
    ensures
        frame_rows(st, trap)[i + 2].1 is None,
{
}

} // verus!
