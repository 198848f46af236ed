//! Cache of symbol information for code addresses, filled from the output of
//! an `addr2line`-style decoder that prints two lines per address.
use std::collections::HashMap;
use vstd::prelude::*;
use vstd::string::StringExecFns;
use vstd::utf8::{
    decode_utf8, encode_utf8, encode_utf8_decode_utf8, encode_utf8_valid_utf8, is_ascii_chars,
    is_ascii_chars_encode_utf8, valid_utf8,
};

verus! {

broadcast use vstd::std_specs::hash::group_hash_axioms;

/// Byte value of the line separator in the decoder's output.
pub const NEWLINE: u8 = 10;

/// The resolved identity of a code address.
#[derive(Debug)]
pub struct Addr2LineInfo {
    /// Demangled name of the function that holds the address.
    pub function: String,
    /// Source file and line, or module, that holds the address.
    pub module: String,
}

impl View for Addr2LineInfo {
    type V = (Seq<char>, Seq<char>);

    open spec fn view(&self) -> (Seq<char>, Seq<char>) {
        (self.function@, self.module@)
    }
}

impl Addr2LineInfo {
    /// A copy of this information.
    pub fn duplicate(&self) -> (r: Self)
        ensures
            r@ == self@,
    {
        Addr2LineInfo { function: self.function.clone(), module: self.module.clone() }
    }
}

/// Why symbol information could not be had.
#[derive(Debug, Clone, Copy, PartialEq, Eq, Structural)]
pub enum Addr2LineError {
    /// The decoder process could not be started.
    SpawnError,
    /// The decoder did not terminate properly, or printed something that is
    /// not text.
    DecodeError,
    /// The decoder printed another number of lines than two per requested
    /// address.
    DecoderOutputMismatch { requested: usize, lines: usize },
    /// The address was never loaded into the registry.
    UnresolvedAddress(u32),
}

/// Relies on `String::from_utf8`: it succeeds exactly on valid UTF-8 and then
/// holds the characters that the bytes encode.
#[verifier::external_body]
fn text_of(bytes: &[u8]) -> (r: Option<String>)
    ensures
        r is Some <==> valid_utf8(bytes@),
        r matches Some(s) ==> s@ == decode_utf8(bytes@),
{
    String::from_utf8(bytes.to_vec()).ok()
}

/// The pieces of `s` between newlines, the first of them continuing `cur`.
pub open spec fn split_pieces(s: Seq<u8>, cur: Seq<u8>) -> Seq<Seq<u8>>
    decreases s.len(),
{
    if s.len() == 0 {
        seq![cur]
    } else if s[0] == NEWLINE {
        seq![cur] + split_pieces(s.drop_first(), Seq::empty())
    } else {
        split_pieces(s.drop_first(), cur.push(s[0]))
    }
}

/// The lines of a decoder's output: the pieces between newlines, without a
/// trailing blank one.
pub open spec fn decoder_lines(output: Seq<u8>) -> Seq<Seq<u8>> {
    let pieces = split_pieces(output, Seq::empty());
    if pieces.last().len() == 0 {
        pieces.drop_last()
    } else {
        pieces
    }
}

/// The information that the line pair at `index` describes.
pub open spec fn pair_info(lines: Seq<Seq<u8>>, index: int) -> (Seq<char>, Seq<char>) {
    (decode_utf8(lines[2 * index]), decode_utf8(lines[2 * index + 1]))
}

/// What a batch load of `addresses` makes of the decoder's `output`: the
/// information for each address in order, or the error.
pub open spec fn load_outcome(addresses: Seq<u32>, output: Seq<u8>) -> Result<
    Seq<(Seq<char>, Seq<char>)>,
    Addr2LineError,
> {
    let lines = decoder_lines(output);
    if exists|i: int| 0 <= i < lines.len() && !valid_utf8(#[trigger] lines[i]) {
        Err(Addr2LineError::DecodeError)
    } else if lines.len() != 2 * addresses.len() {
        Err(
            Addr2LineError::DecoderOutputMismatch {
                requested: addresses.len() as usize,
                lines: lines.len() as usize,
            },
        )
    } else {
        Ok(Seq::new(addresses.len(), |i: int| pair_info(lines, i)))
    }
}

/// `m` with each address bound to the information at its position, later
/// positions overriding earlier ones.
pub open spec fn insert_all(
    m: Map<u32, (Seq<char>, Seq<char>)>,
    addresses: Seq<u32>,
    infos: Seq<(Seq<char>, Seq<char>)>,
) -> Map<u32, (Seq<char>, Seq<char>)>
    decreases addresses.len(),
{
    if addresses.len() == 0 {
        m
    } else {
        insert_all(m, addresses.drop_last(), infos.drop_last()).insert(
            addresses.last(),
            infos[addresses.len() - 1],
        )
    }
}

/// Splits the decoder's output into its lines.
fn split_lines(output: &[u8]) -> (r: Vec<Vec<u8>>)
    ensures
        r@.map_values(|l: Vec<u8>| l@) == decoder_lines(output@),
{
    let n = output.len();
    let mut pieces: Vec<Vec<u8>> = Vec::new();
    let mut cur: Vec<u8> = Vec::new();
    let mut i: usize = 0;
    assert(output@.subrange(0, n as int) =~= output@);
    while i < n
        invariant
            n == output@.len(),
            0 <= i <= n,
            pieces@.map_values(|l: Vec<u8>| l@) + split_pieces(
                output@.subrange(i as int, n as int),
                cur@,
            ) == split_pieces(output@, Seq::empty()),
        decreases n - i,
    {
        let ghost rest = output@.subrange(i as int, n as int);
        let ghost before = pieces@.map_values(|l: Vec<u8>| l@);
        assert(rest.drop_first() =~= output@.subrange(i + 1, n as int));
        assert(rest[0] == output@[i as int]);
        if output[i] == NEWLINE {
            let ghost c = cur@;
            pieces.push(cur);
            cur = Vec::new();
            assert(pieces@.map_values(|l: Vec<u8>| l@) =~= before.push(c));
            assert(before + (seq![c] + split_pieces(rest.drop_first(), Seq::empty())) =~= before.push(
                c,
            ) + split_pieces(rest.drop_first(), Seq::empty()));
        } else {
            cur.push(output[i]);
        }
        i = i + 1;
    }
    let ghost before = pieces@.map_values(|l: Vec<u8>| l@);
    let ghost c = cur@;
    pieces.push(cur);
    assert(pieces@.map_values(|l: Vec<u8>| l@) =~= before.push(c));
    assert(output@.subrange(n as int, n as int) =~= Seq::<u8>::empty());
    assert(before + seq![c] =~= before.push(c));
    let last = pieces.len() - 1;
    if pieces[last].len() == 0 {
        pieces.pop();
        assert(pieces@.map_values(|l: Vec<u8>| l@) =~= split_pieces(
            output@,
            Seq::empty(),
        ).drop_last());
    }
    pieces
}

/// The upper-case hexadecimal digit of `d`, for `d < 16`.
pub open spec fn hex_digit(d: nat) -> char {
    if d < 10 {
        ((48 + d) as u8) as char
    } else {
        ((55 + d) as u8) as char
    }
}

/// The upper-case hexadecimal digits of `n`, without leading zeros.
pub open spec fn hex_digits(n: nat) -> Seq<char>
    decreases n,
{
    if n < 16 {
        seq![hex_digit(n)]
    } else {
        hex_digits(n / 16).push(hex_digit(n % 16))
    }
}

/// How an address is handed to the decoder: `0x` and its upper-case
/// hexadecimal digits.
pub open spec fn address_argument(address: u32) -> Seq<char> {
    seq!['0', 'x'] + hex_digits(address as nat)
}

/// The decoder's arguments for a batch: the binary, function names, demangling,
/// then each address in order.
pub open spec fn decoder_arguments(elf_file: Seq<char>, addresses: Seq<u32>) -> Seq<Seq<char>> {
    seq![seq!['-', 'e'], elf_file, seq!['-', 'f'], seq!['-', 'C']] + addresses.map_values(
        |a: u32| address_argument(a),
    )
}

proof fn lemma_hex_digits_ascii(n: nat)
    ensures
        is_ascii_chars(hex_digits(n)),
    decreases n,
{
    if n >= 16 {
        lemma_hex_digits_ascii(n / 16);
        let s = hex_digits(n);
        assert forall|i| 0 <= i < s.len() implies '\0' <= #[trigger] s[i] <= '\u{7f}' by {
            if i < s.len() - 1 {
                assert(s[i] == hex_digits(n / 16)[i]);
            }
        }
    }
}

fn push_hex_digits(n: u32, out: &mut Vec<u8>)
    ensures
        final(out)@ == old(out)@ + hex_digits(n as nat).map_values(|c: char| c as u8),
    decreases n,
{
    if n >= 16 {
        push_hex_digits(n / 16, out);
    }
    let d: u8 = (n % 16) as u8;
    let b: u8 = if d < 10 {
        48 + d
    } else {
        55 + d
    };
    let ghost before = out@;
    out.push(b);
    proof {
        let f = |c: char| c as u8;
        assert(b == hex_digit((n % 16) as nat) as u8);
        if n >= 16 {
            assert(hex_digits(n as nat) == hex_digits((n / 16) as nat).push(hex_digit((n % 16) as nat)));
            assert(hex_digits(n as nat).map_values(f) =~= hex_digits((n / 16) as nat).map_values(f).push(b));
        } else {
            assert(hex_digits(n as nat).map_values(f) =~= seq![b]);
        }
        assert(out@ =~= old(out)@ + hex_digits(n as nat).map_values(f));
    }
}

/// The argument that hands `address` to the decoder.
pub fn address_text(address: u32) -> (r: String)
    ensures
        r@ == address_argument(address),
{
    let mut bytes: Vec<u8> = vec![48u8, 120u8];
    push_hex_digits(address, &mut bytes);
    let ghost chars = address_argument(address);
    proof {
        lemma_hex_digits_ascii(address as nat);
        assert(is_ascii_chars(chars));
        is_ascii_chars_encode_utf8(chars);
        assert(bytes@ =~= encode_utf8(chars));
        encode_utf8_valid_utf8(chars);
        encode_utf8_decode_utf8(chars);
    }
    text_of(bytes.as_slice()).unwrap()
}

/// Decodes every line as text; `None` when one of them is not.
fn decode_lines(lines: &Vec<Vec<u8>>) -> (r: Option<Vec<String>>)
    ensures
        ({
            let ls = lines@.map_values(|l: Vec<u8>| l@);
            match r {
                Some(texts) => (forall|i: int| 0 <= i < ls.len() ==> valid_utf8(#[trigger] ls[i]))
                    && texts@.len() == ls.len() && forall|i: int|
                    0 <= i < ls.len() ==> (#[trigger] texts@[i])@ == decode_utf8(ls[i]),
                None => exists|i: int| 0 <= i < ls.len() && !valid_utf8(#[trigger] ls[i]),
            }
        }),
{
    let ghost ls = lines@.map_values(|l: Vec<u8>| l@);
    let n = lines.len();
    let mut texts: Vec<String> = Vec::new();
    let mut i: usize = 0;
    while i < n
        invariant
            n == lines@.len(),
            ls == lines@.map_values(|l: Vec<u8>| l@),
            0 <= i <= n,
            texts@.len() == i,
            forall|j: int| 0 <= j < i ==> valid_utf8(#[trigger] ls[j]),
            forall|j: int| 0 <= j < i ==> (#[trigger] texts@[j])@ == decode_utf8(ls[j]),
        decreases n - i,
    {
        match text_of(lines[i].as_slice()) {
            Some(t) => texts.push(t),
            None => {
                assert(!valid_utf8(ls[i as int]));
                return None;
            },
        }
        i = i + 1;
    }
    Some(texts)
}

/// Pairs decoded lines into symbol information, two lines per entry.
fn pair_up(texts: &Vec<String>, count: usize) -> (r: Vec<Addr2LineInfo>)
    requires
        texts@.len() == 2 * count,
    ensures
        r@.len() == count,
        forall|k: int|
            0 <= k < count ==> (#[trigger] r@[k])@ == (texts@[2 * k]@, texts@[2 * k + 1]@),
{
    let total = texts.len();
    let mut infos: Vec<Addr2LineInfo> = Vec::new();
    let mut k: usize = 0;
    while k < count
        invariant
            texts@.len() == 2 * count,
            total == 2 * count,
            0 <= k <= count,
            infos@.len() == k,
            forall|j: int|
                0 <= j < k ==> (#[trigger] infos@[j])@ == (texts@[2 * j]@, texts@[2 * j + 1]@),
        decreases count - k,
    {
        infos.push(
            Addr2LineInfo { function: texts[2 * k].clone(), module: texts[2 * k + 1].clone() },
        );
        k = k + 1;
    }
    infos
}

/// A memoizing registry of symbol information for the code addresses of one
/// ELF binary.
pub struct Addr2LineRegistry {
    elf_file: String,
    registry: HashMap<u32, Addr2LineInfo>,
}

impl Addr2LineRegistry {
    /// The information cached for each loaded address.
    pub closed spec fn cache(&self) -> Map<u32, (Seq<char>, Seq<char>)> {
        self.registry@.map_values(|i: Addr2LineInfo| i@)
    }

    /// The path of the binary whose addresses this registry resolves.
    pub closed spec fn spec_elf_file(&self) -> Seq<char> {
        self.elf_file@
    }

    /// An empty registry for the binary at `elf_file`.
    pub fn new(elf_file: String) -> (r: Self)
        ensures
            r.cache() == Map::<u32, (Seq<char>, Seq<char>)>::empty(),
            r.spec_elf_file() == elf_file@,
    {
        let r = Addr2LineRegistry { elf_file, registry: HashMap::new() };
        assert(r.cache() =~= Map::<u32, (Seq<char>, Seq<char>)>::empty());
        r
    }

    /// The path of the binary, which the decoder is to be run on.
    pub fn elf_file(&self) -> (r: &str)
        ensures
            r@ == self.spec_elf_file(),
    {
        self.elf_file.as_str()
    }

    /// The arguments that make the decoder print two lines for each of
    /// `addresses`, in order.
    pub fn decoder_arguments(&self, addresses: &Vec<u32>) -> (r: Vec<String>)
        ensures
            r@.map_values(|s: String| s@) == decoder_arguments(self.spec_elf_file(), addresses@),
    {
        proof {
            reveal_strlit("-e");
            reveal_strlit("-f");
            reveal_strlit("-C");
        }
        let mut r: Vec<String> = Vec::new();
        r.push(String::from_str("-e"));
        r.push(self.elf_file.clone());
        r.push(String::from_str("-f"));
        r.push(String::from_str("-C"));
        let ghost head = seq![seq!['-', 'e'], self.spec_elf_file(), seq!['-', 'f'], seq!['-', 'C']];
        assert(r@[0]@ =~= seq!['-', 'e']);
        assert(r@[1]@ =~= self.spec_elf_file());
        assert(r@[2]@ =~= seq!['-', 'f']);
        assert(r@[3]@ =~= seq!['-', 'C']);
        assert(r@.map_values(|s: String| s@) =~= head);
        let n = addresses.len();
        let mut i: usize = 0;
        while i < n
            invariant
                n == addresses@.len(),
                0 <= i <= n,
                r@.map_values(|s: String| s@) == head + addresses@.subrange(0, i as int).map_values(
                    |a: u32| address_argument(a),
                ),
            decreases n - i,
        {
            let ghost before = r@.map_values(|s: String| s@);
            r.push(address_text(addresses[i]));
            assert(addresses@.subrange(0, i + 1) =~= addresses@.subrange(0, i as int).push(
                addresses@[i as int],
            ));
            assert(r@.map_values(|s: String| s@) =~= before.push(address_argument(addresses@[i as int])));
            assert(head + addresses@.subrange(0, i + 1).map_values(|a: u32| address_argument(a))
                =~= (head + addresses@.subrange(0, i as int).map_values(
                |a: u32| address_argument(a),
            )).push(address_argument(addresses@[i as int])));
            i = i + 1;
        }
        assert(addresses@.subrange(0, n as int) =~= addresses@);
        r
    }

    /// The cached information for `address`, or `UnresolvedAddress` when it
    /// was never loaded; no decoder output is read.
    pub fn cached_info(&self, address: u32) -> (r: Result<Addr2LineInfo, Addr2LineError>)
        ensures
            self.cache().contains_key(address) ==> (r matches Ok(info) && info@ == self.cache()[address]),
            !self.cache().contains_key(address) ==> r == Err::<Addr2LineInfo, Addr2LineError>(
                Addr2LineError::UnresolvedAddress(address),
            ),
    {
        match self.registry.get(&address) {
            Some(info) => Ok(info.duplicate()),
            None => Err(Addr2LineError::UnresolvedAddress(address)),
        }
    }

    /// Loads the output that the decoder printed for `addresses`, run in one
    /// batch on them in this order: two lines per address, the function name
    /// and then the module. Nothing is cached unless the whole output pairs up.
    pub fn load(&mut self, addresses: &Vec<u32>, output: &[u8]) -> (r: Result<(), Addr2LineError>)
        ensures
            final(self).spec_elf_file() == old(self).spec_elf_file(),
            match load_outcome(addresses@, output@) {
                Ok(infos) => r is Ok && final(self).cache() == insert_all(
                    old(self).cache(),
                    addresses@,
                    infos,
                ),
                Err(e) => r == Err::<(), Addr2LineError>(e) && final(self).cache() == old(
                    self,
                ).cache(),
            },
    {
        let lines = split_lines(output);
        let ghost ls = lines@.map_values(|l: Vec<u8>| l@);
        let texts = match decode_lines(&lines) {
            Some(texts) => texts,
            None => return Err(Addr2LineError::DecodeError),
        };
        let n = addresses.len();
        if texts.len() % 2 != 0 || texts.len() / 2 != n {
            return Err(Addr2LineError::DecoderOutputMismatch { requested: n, lines: texts.len() });
        }
        let infos = pair_up(&texts, n);
        let ghost expected = Seq::new(addresses@.len(), |i: int| pair_info(ls, i));
        assert(load_outcome(addresses@, output@) == Ok::<_, Addr2LineError>(expected));
        let ghost start = self.cache();
        let mut k: usize = 0;
        while k < n
            invariant
                n == addresses@.len(),
                infos@.len() == n,
                expected.len() == n,
                0 <= k <= n,
                forall|j: int| 0 <= j < n ==> (#[trigger] infos@[j])@ == expected[j],
                self.spec_elf_file() == old(self).spec_elf_file(),
                self.cache() == insert_all(
                    start,
                    addresses@.subrange(0, k as int),
                    expected.subrange(0, k as int),
                ),
            decreases n - k,
        {
            let info = infos[k].duplicate();
            let ghost prev = self.cache();
            self.registry.insert(addresses[k], info);
            assert(addresses@.subrange(0, k + 1).drop_last() =~= addresses@.subrange(0, k as int));
            assert(expected.subrange(0, k + 1).drop_last() =~= expected.subrange(0, k as int));
            assert(self.cache() =~= prev.insert(addresses@[k as int], expected[k as int]));
            k = k + 1;
        }
        assert(addresses@.subrange(0, n as int) =~= addresses@);
        assert(expected.subrange(0, n as int) =~= expected);
        Ok(())
    }

    /// Resolves `address` cache first. On a miss, `output` is what the
    /// decoder printed when run on `address` alone; it is loaded, and the
    /// address resolved from it.
    pub fn get_address_info(&mut self, address: u32, output: &[u8]) -> (r: Result<
        Addr2LineInfo,
        Addr2LineError,
    >)
        ensures
            final(self).spec_elf_file() == old(self).spec_elf_file(),
            old(self).cache().contains_key(address) ==> {
                &&& r matches Ok(info) && info@ == old(self).cache()[address]
                &&& final(self).cache() == old(self).cache()
            },
            !old(self).cache().contains_key(address) ==> match load_outcome(
                seq![address],
                output@,
            ) {
                Ok(infos) => {
                    &&& r matches Ok(info) && info@ == infos[0]
                    &&& final(self).cache() == old(self).cache().insert(address, infos[0])
                },
                Err(e) => r == Err::<Addr2LineInfo, Addr2LineError>(e) && final(self).cache()
                    == old(self).cache(),
            },
    {
        match self.cached_info(address) {
            Ok(info) => return Ok(info),
            Err(_) => {},
        }
        let batch = vec![address];
        assert(batch@ =~= seq![address]);
        match self.load(&batch, output) {
            Ok(()) => {},
            Err(e) => return Err(e),
        }
        proof {
            let infos = load_outcome(seq![address], output@)->Ok_0;
            assert(seq![address].drop_last() =~= Seq::<u32>::empty());
            assert(insert_all(old(self).cache(), seq![address], infos) == insert_all(
                old(self).cache(),
                Seq::<u32>::empty(),
                infos.drop_last(),
            ).insert(address, infos[0]));
        }
        self.cached_info(address)
    }
}

/// Decoder output that is text but does not hold two lines per requested
/// address is refused as a mismatch, so nothing of it is cached.
pub proof fn lemma_line_count_mismatch(addresses: Seq<u32>, output: Seq<u8>)
    requires
        forall|i: int|
            0 <= i < decoder_lines(output).len() ==> valid_utf8(#[trigger] decoder_lines(output)[i]),
        decoder_lines(output).len() != 2 * addresses.len(),
    ensures
        load_outcome(addresses, output) == Err::<Seq<(Seq<char>, Seq<char>)>, Addr2LineError>(
            Addr2LineError::DecoderOutputMismatch {
                requested: addresses.len() as usize,
                lines: decoder_lines(output).len() as usize,
            },
        ),
{
}

/// After a batch load, every address of the batch is cached.
pub proof fn lemma_loaded_batch_cached(
    m: Map<u32, (Seq<char>, Seq<char>)>,
    addresses: Seq<u32>,
    infos: Seq<(Seq<char>, Seq<char>)>,
)
    requires
        addresses.len() == infos.len(),
    ensures
        forall|k: int|
            0 <= k < addresses.len() ==> insert_all(m, addresses, infos).contains_key(
                #[trigger] addresses[k],
            ),
    decreases addresses.len(),
{
    if addresses.len() > 0 {
        lemma_loaded_batch_cached(m, addresses.drop_last(), infos.drop_last());
        assert forall|k: int| 0 <= k < addresses.len() implies insert_all(
            m,
            addresses,
            infos,
        ).contains_key(#[trigger] addresses[k]) by {
            if k < addresses.len() - 1 {
                assert(addresses.drop_last()[k] == addresses[k]);
            }
        }
    }
}

/// After a batch load, an address that no later position of the batch
/// repeats resolves to the information at its own position.
pub proof fn lemma_loaded_address_resolves(
    m: Map<u32, (Seq<char>, Seq<char>)>,
    addresses: Seq<u32>,
    infos: Seq<(Seq<char>, Seq<char>)>,
    i: int,
)
    requires
        addresses.len() == infos.len(),
        0 <= i < addresses.len(),
        forall|j: int| i < j < addresses.len() ==> addresses[j] != addresses[i],
    ensures
        insert_all(m, addresses, infos).contains_key(addresses[i]),
        insert_all(m, addresses, infos)[addresses[i]] == infos[i],
    decreases addresses.len(),
{
    if i < addresses.len() - 1 {
        lemma_loaded_address_resolves(m, addresses.drop_last(), infos.drop_last(), i);
    }
}

} // verus!
