//! A hash chain: each value is the HMAC-SHA256 of its place in the chain,
//! keyed by the value before it, and the first is keyed by a seed.

use hmac::{Hmac, Mac};
use sha2::Sha256;
use vstd::prelude::*;

verus! {

/// The greatest length of a seed, in bytes.
pub const MAX_INPUT_LENGTH: usize = 1024;

/// Why the chain refused an operation.
#[derive(Clone, Copy, Debug, PartialEq, Eq, Structural)]
pub enum ChainError {
    /// The seed is empty.
    EmptyInput,
    /// The seed is longer than `MAX_INPUT_LENGTH` bytes.
    InputTooLarge,
    /// A value was asked for before any seed was set.
    NoSeed,
    /// The key was refused by the HMAC.
    InvalidKeyLength,
}

impl ChainError {
    /// The refusal in words.
    pub open spec fn text(self) -> Seq<char> {
        match self {
            ChainError::EmptyInput => "Empty input"@,
            ChainError::InputTooLarge => "Input too large"@,
            ChainError::NoSeed => "No seed value set"@,
            ChainError::InvalidKeyLength => "Invalid key length"@,
        }
    }

    /// The refusal in words.
    pub fn message(&self) -> (text: &'static str)
        ensures
            text@ == self.text(),
    {
        match self {
            ChainError::EmptyInput => "Empty input",
            ChainError::InputTooLarge => "Input too large",
            ChainError::NoSeed => "No seed value set",
            ChainError::InvalidKeyLength => "Invalid key length",
        }
    }
}

/// The error of the `hmac` crate for a key of a length that it does not
/// take.
#[verifier::external_type_specification]
#[verifier::external_body]
pub struct ExInvalidLength(hmac::digest::InvalidLength);

/// The HMAC-SHA256 tag of `message` under `key`.
///
/// Nothing is said of its value beyond what `hmac_tag` states: it is the
/// name under which contracts speak of what the `hmac` crate computes.
pub uninterp spec fn hmac_sha256(key: Seq<u8>, message: Seq<u8>) -> Seq<u8>;

/// Computes a tag with `Hmac::<Sha256>`: `new_from_slice`, `update`,
/// `finalize`.
///
/// Trusted, not proved: a key of any length is taken, and the bytes
/// returned are the HMAC-SHA256 tag of `message` under `key`, which
/// depends on nothing but those two.
#[verifier::external_body]
fn hmac_tag(key: &[u8], message: &[u8]) -> (result: Result<Vec<u8>, hmac::digest::InvalidLength>)
    ensures
        result is Ok,
        result matches Ok(tag) ==> tag@ == hmac_sha256(key@, message@),
{
    let mut mac = Hmac::<Sha256>::new_from_slice(key)?;
    mac.update(message);
    Ok(mac.finalize().into_bytes().to_vec())
}

/// What one unit of the byte at `place` is worth, the last byte being at
/// place zero.
pub open spec fn place_value(place: nat) -> nat
    decreases place,
{
    if place == 0 {
        1
    } else {
        256 * place_value((place - 1) as nat)
    }
}

/// The eight bytes of `n`, the most significant first.
pub open spec fn be_bytes(n: u64) -> Seq<u8> {
    Seq::new(8, |i: int| ((n as nat / place_value((7 - i) as nat)) % 256) as u8)
}

/// Writes `n` as eight bytes, the most significant first.
pub fn to_be_bytes(n: u64) -> (bytes: Vec<u8>)
    ensures
        bytes@ == be_bytes(n),
{
    proof {
        reveal_with_fuel(place_value, 8);
        assert(place_value(7) == 0x100_0000_0000_0000);
        assert(place_value(6) == 0x1_0000_0000_0000);
        assert(place_value(5) == 0x100_0000_0000);
        assert(place_value(4) == 0x1_0000_0000);
        assert(place_value(3) == 0x100_0000);
        assert(place_value(2) == 0x1_0000);
        assert(place_value(1) == 0x100);
        assert(place_value(0) == 1);
    }
    let mut bytes: Vec<u8> = Vec::new();
    bytes.push(((n / 0x100_0000_0000_0000) % 256) as u8);
    bytes.push(((n / 0x1_0000_0000_0000) % 256) as u8);
    bytes.push(((n / 0x100_0000_0000) % 256) as u8);
    bytes.push(((n / 0x1_0000_0000) % 256) as u8);
    bytes.push(((n / 0x100_0000) % 256) as u8);
    bytes.push(((n / 0x1_0000) % 256) as u8);
    bytes.push(((n / 0x100) % 256) as u8);
    bytes.push((n % 256) as u8);
    proof {
        let expected = be_bytes(n);
        assert(expected[0] == bytes@[0]);
        assert(expected[1] == bytes@[1]);
        assert(expected[2] == bytes@[2]);
        assert(expected[3] == bytes@[3]);
        assert(expected[4] == bytes@[4]);
        assert(expected[5] == bytes@[5]);
        assert(expected[6] == bytes@[6]);
        assert(n as nat / 1 == n as nat);
        assert(expected[7] == bytes@[7]);
    }
    bytes
}

/// The value that follows `input` at the place `sequence` of the chain.
pub open spec fn transformed(input: Seq<u8>, sequence: u64) -> Seq<u8> {
    hmac_sha256(input, be_bytes(sequence))
}

/// Computes the value that follows `input` at the place `sequence`.
pub fn transform(input: &[u8], sequence: u64) -> (result: Result<Vec<u8>, ChainError>)
    ensures
        result matches Ok(value) && value@ == transformed(input@, sequence),
{
    let message = to_be_bytes(sequence);
    match hmac_tag(input, message.as_slice()) {
        Ok(tag) => Ok(tag),
        Err(_) => Err(ChainError::InvalidKeyLength),
    }
}

/// Checks a seed: it must hold at least one byte and at most
/// `MAX_INPUT_LENGTH`.
pub fn validate_input(input: &[u8]) -> (result: Result<(), ChainError>)
    ensures
        input@.len() == 0 ==> result == Err::<(), ChainError>(ChainError::EmptyInput),
        input@.len() > MAX_INPUT_LENGTH ==> result == Err::<(), ChainError>(
            ChainError::InputTooLarge,
        ),
        0 < input@.len() <= MAX_INPUT_LENGTH ==> result is Ok,
{
    if input.len() == 0 {
        return Err(ChainError::EmptyInput);
    }
    if input.len() > MAX_INPUT_LENGTH {
        return Err(ChainError::InputTooLarge);
    }
    Ok(())
}

/// A value of the chain, as contracts see it.
#[verifier::ext_equal]
pub struct ValueView {
    pub node: Seq<char>,
    pub value: Seq<u8>,
    pub sequence: u64,
}

/// A value of the chain: who asked for it, the value, and its place.
#[derive(Clone, Debug, PartialEq, Eq)]
pub struct ProcessedValue {
    pub node: String,
    pub value: Vec<u8>,
    pub sequence: u64,
}

impl View for ProcessedValue {
    type V = ValueView;

    open spec fn view(&self) -> ValueView {
        ValueView { node: self.node@, value: self.value@, sequence: self.sequence }
    }
}

impl ProcessedValue {
    /// A copy of the value.
    pub fn duplicate(&self) -> (copy: ProcessedValue)
        ensures
            copy@ == self@,
    {
        ProcessedValue {
            node: self.node.clone(),
            value: self.value.clone(),
            sequence: self.sequence,
        }
    }
}

/// An announcement of the chain, as contracts see it.
#[verifier::ext_equal]
pub enum RandomEventView {
    ValueProcessed { node: Seq<char>, sequence: u64, value_hash: Seq<u8> },
}

/// What the chain announces.
#[derive(Clone, Debug, PartialEq, Eq)]
pub enum RandomEvent {
    /// A value was added to the chain.
    ValueProcessed { node: String, sequence: u64, value_hash: Vec<u8> },
}

impl View for RandomEvent {
    type V = RandomEventView;

    open spec fn view(&self) -> RandomEventView {
        match *self {
            RandomEvent::ValueProcessed { node, sequence, value_hash } => {
                RandomEventView::ValueProcessed { node: node@, sequence, value_hash: value_hash@ }
            },
        }
    }
}

/// The views of `values`, one for one.
pub open spec fn value_views(values: Seq<ProcessedValue>) -> Seq<ValueView> {
    values.map_values(|value: ProcessedValue| value@)
}

/// The views of `events`, one for one.
pub open spec fn random_event_views(events: Seq<RandomEvent>) -> Seq<RandomEventView> {
    events.map_values(|event: RandomEvent| event@)
}

/// The chain as contracts see it.
#[verifier::ext_equal]
pub struct ChainView {
    /// The values, oldest first.
    pub values: Seq<ValueView>,
    /// The seed that keys the first value, once one was set.
    pub seed: Option<Seq<u8>>,
    /// What was announced and not yet taken for delivery, oldest first.
    pub events: Seq<RandomEventView>,
}

impl ChainView {
    /// A chain without seed or values.
    pub open spec fn empty() -> ChainView {
        ChainView { values: Seq::empty(), seed: None, events: Seq::empty() }
    }

    /// Each value carries its place in the chain as its sequence number.
    pub open spec fn wf(self) -> bool {
        forall|i: int| 0 <= i < self.values.len() ==> self.values[i].sequence == i
    }

    /// What keys the next value: the last value, or the seed where there is
    /// no value yet.
    pub open spec fn next_input(self) -> Option<Seq<u8>> {
        if self.values.len() == 0 {
            self.seed
        } else {
            Some(self.values.last().value)
        }
    }

    /// The chain after `node` has had the next value computed.
    pub open spec fn process_value(self, node: Seq<char>) -> ChainView {
        let sequence = self.values.len() as u64;
        let value = transformed(self.next_input()->0, sequence);
        ChainView {
            values: self.values.push(ValueView { node, value, sequence }),
            events: self.events.push(
                RandomEventView::ValueProcessed { node, sequence, value_hash: value },
            ),
            ..self
        }
    }
}

/// The hash chain.
pub struct RandomChain {
    processed_values: Vec<ProcessedValue>,
    processing_sequence: u64,
    current_seed: Option<Vec<u8>>,
    events: Vec<RandomEvent>,
}

impl View for RandomChain {
    type V = ChainView;

    closed spec fn view(&self) -> ChainView {
        ChainView {
            values: value_views(self.processed_values@),
            seed: match self.current_seed {
                Some(seed) => Some(seed@),
                None => None,
            },
            events: random_event_views(self.events@),
        }
    }
}

impl RandomChain {
    #[verifier::type_invariant]
    spec fn sound(self) -> bool {
        self@.wf() && self.processing_sequence == self.processed_values@.len()
    }

    /// A chain without seed or values.
    pub fn init() -> (chain: RandomChain)
        ensures
            chain@ == ChainView::empty(),
            chain@.wf(),
    {
        RandomChain {
            processed_values: Vec::new(),
            processing_sequence: 0,
            current_seed: None,
            events: Vec::new(),
        }
    }

    /// Moves the chain out and leaves an empty one in its place, so that
    /// its parts can be changed together.
    fn take(&mut self) -> (taken: RandomChain)
        ensures
            taken@ == old(self)@,
            taken@.wf(),
            taken.processing_sequence == taken@.values.len(),
    {
        proof {
            use_type_invariant(&*self);
        }
        let mut taken = RandomChain::init();
        std::mem::swap(self, &mut taken);
        taken
    }

    /// Sets the seed. An empty seed, and one of more than
    /// `MAX_INPUT_LENGTH` bytes, is refused and changes nothing.
    pub fn set_seed(&mut self, quantum_seed: Vec<u8>) -> (result: Result<(), ChainError>)
        ensures
            quantum_seed@.len() == 0 ==> result == Err::<(), ChainError>(ChainError::EmptyInput)
                && final(self)@ == old(self)@,
            quantum_seed@.len() > MAX_INPUT_LENGTH ==> result == Err::<(), ChainError>(
                ChainError::InputTooLarge,
            ) && final(self)@ == old(self)@,
            0 < quantum_seed@.len() <= MAX_INPUT_LENGTH ==> result is Ok && final(self)@ == (
            ChainView { seed: Some(quantum_seed@), ..old(self)@ }),
            final(self)@.wf(),
    {
        proof {
            use_type_invariant(&*self);
        }
        match validate_input(quantum_seed.as_slice()) {
            Ok(()) => {},
            Err(error) => {
                return Err(error);
            },
        }
        let RandomChain { processed_values, processing_sequence, current_seed: _, events } =
            self.take();
        *self = RandomChain {
            processed_values,
            processing_sequence,
            current_seed: Some(quantum_seed),
            events,
        };
        Ok(())
    }

    /// Adds the next value to the chain for `node` and announces it.
    /// Returns the sequence number of the value: its place in the chain.
    /// Refused, with nothing changed, while the chain has neither a value
    /// nor a seed.
    pub fn process_value(&mut self, node: String) -> (result: Result<u64, ChainError>)
        ensures
            old(self)@.next_input() is None ==> result == Err::<u64, ChainError>(
                ChainError::NoSeed,
            ) && final(self)@ == old(self)@,
            old(self)@.next_input() is Some ==> result == Ok::<u64, ChainError>(
                old(self)@.values.len() as u64,
            ) && final(self)@ == old(self)@.process_value(node@),
            final(self)@.wf(),
    {
        proof {
            use_type_invariant(&*self);
        }
        let sequence: u64 = self.processing_sequence;
        let count: usize = self.processed_values.len();
        let computed = if count == 0 {
            match &self.current_seed {
                Some(seed) => transform(seed.as_slice(), sequence),
                None => {
                    return Err(ChainError::NoSeed);
                },
            }
        } else {
            transform(self.processed_values[count - 1].value.as_slice(), sequence)
        };
        let value = match computed {
            Ok(value) => value,
            Err(error) => {
                return Err(error);
            },
        };
        let ghost before = self@;
        let RandomChain { processed_values, processing_sequence: _, current_seed, events } =
            self.take();
        let mut processed_values = processed_values;
        let mut events = events;
        let added = ProcessedValue { node: node.clone(), value: value.clone(), sequence };
        let announced = RandomEvent::ValueProcessed { node, sequence, value_hash: value };
        proof {
            assert(value_views(processed_values@.push(added)) =~= before.values.push(added@));
            assert(random_event_views(events@.push(announced)) =~= before.events.push(
                announced@,
            ));
        }
        processed_values.push(added);
        events.push(announced);
        // The chain has grown by one, so the next number is its length.
        let next: u64 = processed_values.len() as u64;
        *self = RandomChain { processed_values, processing_sequence: next, current_seed, events };
        Ok(sequence)
    }

    /// All values, oldest first.
    pub fn get_all_values(&self) -> (all: Vec<ProcessedValue>)
        ensures
            value_views(all@) == self@.values,
    {
        let mut all: Vec<ProcessedValue> = Vec::new();
        let mut i: usize = 0;
        while i < self.processed_values.len()
            invariant
                i <= self.processed_values.len(),
                value_views(all@) == self@.values.take(i as int),
            decreases self.processed_values.len() - i,
        {
            let copy = self.processed_values[i].duplicate();
            proof {
                assert(value_views(all@.push(copy)) =~= self@.values.take(i as int).push(copy@));
            }
            all.push(copy);
            i += 1;
        }
        all
    }

    /// The last value of the chain, if it has one.
    pub fn get_last_value(&self) -> (last: Option<ProcessedValue>)
        ensures
            match last {
                Some(value) => self@.values.len() > 0 && value@ == self@.values.last(),
                None => self@.values.len() == 0,
            },
    {
        let count: usize = self.processed_values.len();
        if count == 0 {
            return None;
        }
        Some(self.processed_values[count - 1].duplicate())
    }

    /// Hands over what the chain has announced since the last call, oldest
    /// first, and empties the outbox.
    pub fn take_events(&mut self) -> (events: Vec<RandomEvent>)
        ensures
            random_event_views(events@) == old(self)@.events,
            final(self)@ == (ChainView { events: Seq::empty(), ..old(self)@ }),
            final(self)@.wf(),
    {
        let RandomChain { processed_values, processing_sequence, current_seed, events } =
            self.take();
        *self = RandomChain {
            processed_values,
            processing_sequence,
            current_seed,
            events: Vec::new(),
        };
        events
    }
}

} // verus!
