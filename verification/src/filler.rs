//! The filler buffer: random alphanumeric text, broken into lines of sixty
//! symbols, made once and only read afterwards.

use crate::entropy::choose_byte;
use rand::rngs::ThreadRng;
use vstd::prelude::*;

verus! {

/// Number of symbols on a line of filler text.
pub const LINE_WIDTH: usize = 60;

/// ASCII code of the line break.
pub const NEWLINE: u8 = 10;

/// Number of symbols in the alphabet.
pub const ALPHABET_SIZE: u8 = 62;

/// `b` is an ASCII letter or digit.
pub open spec fn is_alphanumeric(b: u8) -> bool {
    ||| 97 <= b <= 122
    ||| 65 <= b <= 90
    ||| 48 <= b <= 57
}

/// Every byte of `s` is an ASCII letter or digit.
pub open spec fn all_alphanumeric(s: Seq<u8>) -> bool {
    forall|i: int| 0 <= i < s.len() ==> is_alphanumeric(#[trigger] s[i])
}

/// The symbol at position `i` of the alphabet: the lower-case letters, then
/// the upper-case letters, then the digits.
pub open spec fn symbol_spec(i: int) -> u8 {
    if i < 26 {
        (97 + i) as u8
    } else if i < 52 {
        (65 + (i - 26)) as u8
    } else {
        (48 + (i - 52)) as u8
    }
}

/// The alphabet that filler text is drawn from, in order.
pub open spec fn alphabet_spec() -> Seq<u8> {
    Seq::new(62, |i: int| symbol_spec(i))
}

/// The alphabet holds the ASCII letters and digits, and nothing else.
pub proof fn lemma_alphabet_members(b: u8)
    ensures
        alphabet_spec().contains(b) <==> is_alphanumeric(b),
{
    if is_alphanumeric(b) {
        let i: int = if b >= 97 {
            b - 97
        } else if b >= 65 {
            b - 65 + 26
        } else {
            b - 48 + 52
        };
        assert(alphabet_spec()[i] == b);
    }
}

/// Whether `b` is an ASCII letter or digit.
pub fn is_alphanumeric_byte(b: u8) -> (member: bool)
    ensures
        member == is_alphanumeric(b),
{
    (97 <= b && b <= 122) || (65 <= b && b <= 90) || (48 <= b && b <= 57)
}

/// The symbol at position `i` of the alphabet.
fn symbol(i: u8) -> (b: u8)
    requires
        i < ALPHABET_SIZE,
    ensures
        b == symbol_spec(i as int),
{
    if i < 26 {
        97 + i
    } else if i < 52 {
        65 + (i - 26)
    } else {
        48 + (i - 52)
    }
}

/// The alphabet, in order.
pub fn alphabet() -> (symbols: Vec<u8>)
    ensures
        symbols@ == alphabet_spec(),
{
    let mut symbols: Vec<u8> = Vec::new();
    let mut i: u8 = 0;
    while i < ALPHABET_SIZE
        invariant
            i <= ALPHABET_SIZE,
            symbols@ == Seq::new(i as nat, |j: int| symbol_spec(j)),
        decreases ALPHABET_SIZE - i,
    {
        symbols.push(symbol(i));
        i = i + 1;
        assert(symbols@ =~= Seq::new(i as nat, |j: int| symbol_spec(j)));
    }
    symbols
}

/// What stands between the symbol at position `index` and the one before it:
/// a line break in front of every sixtieth symbol but the first, else nothing.
pub open spec fn separator(index: int) -> Seq<u8> {
    if index > 0 && index % 60 == 0 {
        seq![10u8]
    } else {
        Seq::empty()
    }
}

/// The text that a sequence of drawn symbols is laid out as: the symbols in
/// order, each with its separator in front.
pub open spec fn layout(draws: Seq<u8>) -> Seq<u8>
    decreases draws.len(),
{
    if draws.len() == 0 {
        Seq::empty()
    } else {
        layout(draws.drop_last()) + separator(draws.len() - 1) + seq![draws.last()]
    }
}

/// Length of the text that `drawn` symbols are laid out as.
pub open spec fn filler_len(drawn: nat) -> nat {
    if drawn == 0 {
        0
    } else {
        (drawn + (drawn - 1) / 60) as nat
    }
}

/// `text` is filler text of `size` symbols: some `size` symbols of the
/// alphabet, laid out.
pub open spec fn is_filler_text(text: Seq<u8>, size: nat) -> bool {
    exists|draws: Seq<u8>|
        draws.len() == size && all_alphanumeric(draws) && text == #[trigger] layout(draws)
}

/// `text` is filler text of some size.
pub open spec fn filler_text_of_some_size(text: Seq<u8>) -> bool {
    exists|size: nat| #[trigger] is_filler_text(text, size)
}

/// Laid-out text has one byte for each symbol and one for each line break.
pub proof fn lemma_layout_len(draws: Seq<u8>)
    ensures
        layout(draws).len() == filler_len(draws.len()),
    decreases draws.len(),
{
    if draws.len() > 0 {
        lemma_layout_len(draws.drop_last());
    }
}

/// Where the symbols stand in laid-out text: symbol `i` stands at position
/// `i + i / 60`, and every sixtieth symbol but the first has a line break
/// immediately in front of it.
pub proof fn lemma_layout_symbol(draws: Seq<u8>, i: int)
    requires
        0 <= i < draws.len(),
    ensures
        i + i / 60 < layout(draws).len(),
        layout(draws)[i + i / 60] == draws[i],
        i > 0 && i % 60 == 0 ==> layout(draws)[i + i / 60 - 1] == NEWLINE,
    decreases draws.len(),
{
    let shorter = draws.drop_last();
    lemma_layout_len(draws);
    lemma_layout_len(shorter);
    if i < draws.len() - 1 {
        lemma_layout_symbol(shorter, i);
    }
}

/// The shape of laid-out text, position by position: a line break at every
/// position that leaves remainder 60 on division by 61, and symbol
/// `p - p / 61` at every other position `p`.
pub proof fn lemma_layout_shape(draws: Seq<u8>, p: int)
    requires
        0 <= p < layout(draws).len(),
    ensures
        0 <= p - p / 61 < draws.len(),
        p % 61 == 60 ==> layout(draws)[p] == NEWLINE,
        p % 61 != 60 ==> layout(draws)[p] == draws[p - p / 61],
{
    lemma_layout_len(draws);
    let i = p - p / 61;
    if p % 61 == 60 {
        assert(i + i / 60 - 1 == p);
    } else {
        assert(i + i / 60 == p);
    }
    lemma_layout_symbol(draws, i);
}

/// Filler text of `size` symbols has the length that `size` symbols take, a
/// line break at the end of every full line that another symbol follows, and
/// a symbol of the alphabet everywhere else.
pub proof fn lemma_filler_shape(text: Seq<u8>, size: nat)
    requires
        is_filler_text(text, size),
    ensures
        text.len() == filler_len(size),
        forall|p: int|
            0 <= p < text.len() ==> if p % 61 == 60 {
                #[trigger] text[p] == NEWLINE
            } else {
                is_alphanumeric(text[p])
            },
{
    let draws = choose|draws: Seq<u8>|
        draws.len() == size && all_alphanumeric(draws) && text == #[trigger] layout(draws);
    lemma_layout_len(draws);
    assert forall|p: int| 0 <= p < text.len() implies if p % 61 == 60 {
        #[trigger] text[p] == NEWLINE
    } else {
        is_alphanumeric(text[p])
    } by {
        lemma_layout_shape(draws, p);
    }
}

/// In filler text of `size` symbols, symbol `i` stands at position
/// `i + i / 60` and belongs to the alphabet, and every sixtieth symbol but the
/// first has a line break immediately in front of it.
pub proof fn lemma_filler_symbol(text: Seq<u8>, size: nat, i: int)
    requires
        is_filler_text(text, size),
        0 <= i < size,
    ensures
        i + i / 60 < text.len(),
        is_alphanumeric(text[i + i / 60]),
        i > 0 && i % 60 == 0 ==> text[i + i / 60 - 1] == NEWLINE,
{
    let draws = choose|draws: Seq<u8>|
        draws.len() == size && all_alphanumeric(draws) && text == #[trigger] layout(draws);
    lemma_layout_symbol(draws, i);
}

/// Filler text of at most one line holds no line break: it has exactly as
/// many bytes as symbols, each of the alphabet.
pub proof fn lemma_single_line_filler(text: Seq<u8>, size: nat)
    requires
        is_filler_text(text, size),
        size <= 60,
    ensures
        text.len() == size,
        all_alphanumeric(text),
{
    lemma_filler_shape(text, size);
}

/// Filler text has one size only.
pub proof fn lemma_filler_size_is_unique(text: Seq<u8>, a: nat, b: nat)
    requires
        is_filler_text(text, a),
        is_filler_text(text, b),
    ensures
        a == b,
{
    lemma_filler_shape(text, a);
    lemma_filler_shape(text, b);
}

/// Appends to `out` the symbol that is number `index` of a filler text, behind
/// its separator.
pub fn place_symbol(out: &mut Vec<u8>, index: usize, symbol: u8)
    ensures
        final(out)@ == old(out)@ + separator(index as int) + seq![symbol],
{
    if index > 0 && index % LINE_WIDTH == 0 {
        out.push(NEWLINE);
    }
    out.push(symbol);
    assert(out@ =~= old(out)@ + separator(index as int) + seq![symbol]);
}

/// Lays the given symbols out as text, with a line break in front of every
/// sixtieth symbol but the first.
pub fn lay_out(draws: &[u8]) -> (text: Vec<u8>)
    ensures
        text@ == layout(draws@),
{
    let mut text: Vec<u8> = Vec::new();
    let mut i: usize = 0;
    while i < draws.len()
        invariant
            i <= draws@.len(),
            text@ == layout(draws@.take(i as int)),
        decreases draws@.len() - i,
    {
        place_symbol(&mut text, i, draws[i]);
        proof {
            assert(draws@.take(i + 1).drop_last() =~= draws@.take(i as int));
        }
        i = i + 1;
    }
    assert(draws@.take(i as int) =~= draws@);
    text
}

/// The filler buffer. It is made once, by `generate_random_alphanumeric` or
/// from given symbols, and never changes afterwards.
pub struct FillerBuffer {
    text: Vec<u8>,
}

impl View for FillerBuffer {
    type V = Seq<u8>;

    /// The text of the buffer, line breaks included.
    closed spec fn view(&self) -> Seq<u8> {
        self.text@
    }
}

impl FillerBuffer {
    /// Whatever buffer there is holds filler text of some size.
    #[verifier::type_invariant]
    spec fn well_formed(&self) -> bool {
        filler_text_of_some_size(self.text@)
    }

    /// The buffer holds filler text of `size` symbols.
    pub open spec fn holds(&self, size: nat) -> bool {
        is_filler_text(self@, size)
    }

    /// The buffer that lays out the given symbols, if each of them belongs to
    /// the alphabet; `None` if one does not.
    pub fn from_symbols(draws: &[u8]) -> (made: Option<FillerBuffer>)
        ensures
            made is Some <==> all_alphanumeric(draws@),
            made is Some ==> made->0@ == layout(draws@) && made->0.holds(draws@.len()),
    {
        let mut i: usize = 0;
        while i < draws.len()
            invariant
                i <= draws@.len(),
                all_alphanumeric(draws@.take(i as int)),
            decreases draws@.len() - i,
        {
            if !is_alphanumeric_byte(draws[i]) {
                return None;
            }
            assert forall|j: int| 0 <= j < i + 1 implies is_alphanumeric(
                #[trigger] draws@.take(i + 1)[j],
            ) by {
                if j < i {
                    assert(draws@.take(i as int)[j] == draws@[j]);
                }
            }
            i = i + 1;
        }
        assert(draws@.take(i as int) =~= draws@);
        let text = lay_out(draws);
        assert(is_filler_text(text@, draws@.len()));
        Some(FillerBuffer { text })
    }

    /// Number of symbols in the buffer: its bytes, line breaks not counted.
    pub fn symbol_count(&self) -> (size: usize)
        ensures
            self.holds(size as nat),
    {
        proof {
            use_type_invariant(self);
            let held = choose|held: nat| #[trigger] is_filler_text(self.text@, held);
            lemma_filler_shape(self.text@, held);
        }
        let len: usize = self.text.len();
        len - len / (LINE_WIDTH + 1)
    }

    /// Number of bytes in the buffer, line breaks included.
    pub fn len(&self) -> (n: usize)
        ensures
            n == self@.len(),
    {
        self.text.len()
    }

    /// The text of the buffer.
    pub fn as_bytes(&self) -> (text: &[u8])
        ensures
            text@ == self@,
    {
        self.text.as_slice()
    }
}

/// Draws `size` symbols from the alphabet, each at random and independently
/// of the others, and lays them out as the filler buffer.
pub fn generate_random_alphanumeric(size: usize) -> (buffer: FillerBuffer)
    ensures
        buffer.holds(size as nat),
{
    let symbols = alphabet();
    let mut rng: ThreadRng = rand::thread_rng();
    let mut text: Vec<u8> = Vec::new();
    let ghost mut drawn: Seq<u8> = Seq::empty();
    let mut i: usize = 0;
    while i < size
        invariant
            i <= size,
            symbols@ == alphabet_spec(),
            drawn.len() == i,
            all_alphanumeric(drawn),
            text@ == layout(drawn),
        decreases size - i,
    {
        let picked = choose_byte(&mut rng, symbols.as_slice());
        let c: u8 = picked.unwrap();
        place_symbol(&mut text, i, c);
        proof {
            lemma_alphabet_members(c);
            assert(drawn.push(c).drop_last() =~= drawn);
            drawn = drawn.push(c);
        }
        i = i + 1;
    }
    assert(is_filler_text(text@, size as nat));
    FillerBuffer { text }
}

} // verus!
