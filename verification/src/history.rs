use vstd::prelude::*;
use crate::error::Error;
use crate::operation::{
    final_validation, genesis_is_encoded, genesis_validation, history_is_well_shaped,
    history_validation, key_indices, links_validation, pair_is_encoded, pair_validation,
    validate_2_operations, validate_final_operation, validate_genesis_operation,
};

verus! {

/// What validating the operations of a history gives before the final
/// authorization is looked at: the genesis operation, then each link.
pub open spec fn prefix_validation(did: Seq<u8>, history: Seq<Seq<u8>>, indices: Seq<int>) -> Result<
    (),
    Error,
> {
    if history.len() == 0 {
        Ok(())
    } else {
        match genesis_validation(history[0], did, indices[0]) {
            Err(e) => Err(e),
            Ok(_) => links_validation(history, indices, 1),
        }
    }
}

/// The links of a history with one more operation: those of the history,
/// then the link of that operation to the last one.
pub proof fn lemma_links_push(history: Seq<Seq<u8>>, indices: Seq<int>, from: int, op: Seq<u8>)
    requires
        1 <= from <= history.len(),
    ensures
        links_validation(history.push(op), indices, from) == match links_validation(
            history,
            indices,
            from,
        ) {
            Err(e) => Err(e),
            Ok(_) => pair_validation(history.last(), op, indices[history.len() as int]),
        },
    decreases history.len() - from,
{
    let longer = history.push(op);
    reveal_with_fuel(links_validation, 2);
    assert(longer.len() == history.len() + 1);
    if from < history.len() {
        assert(longer[from - 1] == history[from - 1]);
        assert(longer[from] == history[from]);
        lemma_links_push(history, indices, from + 1, op);
    } else {
        assert(longer[from - 1] == history.last());
        assert(longer[from] == op);
    }
}

/// An error among the first operations of a history is the error of every
/// history that goes on from them.
pub proof fn lemma_prefix_error_stays(
    did: Seq<u8>,
    history: Seq<Seq<u8>>,
    indices: Seq<int>,
    msg: Seq<u8>,
    final_sig: Seq<u8>,
    n: int,
)
    requires
        1 <= n <= history.len(),
        history.len() + 1 == indices.len(),
        prefix_validation(did, history.take(n), indices) is Err,
    ensures
        history_validation(did, history, indices, msg, final_sig) == prefix_validation(
            did,
            history.take(n),
            indices,
        ),
    decreases history.len() - n,
{
    assert(history.take(n)[0] == history[0]);
    if n < history.len() {
        assert(history.take(n + 1) =~= history.take(n).push(history[n]));
        assert(history.take(n + 1)[0] == history[0]);
        lemma_links_push(history.take(n), indices, 1, history[n]);
        lemma_prefix_error_stays(did, history, indices, msg, final_sig, n + 1);
    } else {
        assert(history.take(n) =~= history);
    }
}

/// A validation under way: the operations are handed in one by one, in the
/// order of the history, and each is validated as it comes.
pub struct HistoryValidation {
    binary_did: Vec<u8>,
    indices: Vec<usize>,
    msg: Vec<u8>,
    final_sig: Vec<u8>,
    len: usize,
    next: usize,
    prev: Vec<u8>,
    seen: Ghost<Seq<Seq<u8>>>,
}

/// How a validation goes on after an operation.
pub enum HistoryStep {
    /// The operation is in order; the next one is wanted.
    Next(HistoryValidation),
    /// The operation was the last one and the history is valid.
    Accepted,
    /// The history is rejected.
    Rejected(Error),
}

impl HistoryValidation {
    #[verifier::type_invariant]
    spec fn well_formed(&self) -> bool {
        &&& self.len != 0
        &&& self.len + 1 == self.indices@.len()
        &&& self.seen@.len() < self.len
        &&& self.next == self.seen@.len()
        &&& self.seen@.len() > 0 ==> self.prev@ == self.seen@.last()
        &&& prefix_validation(self.binary_did@, self.seen@, key_indices(self.indices@)) is Ok
    }

    /// The binary identifier that the history must give.
    pub closed spec fn did(&self) -> Seq<u8> {
        self.binary_did@
    }

    /// The key indices of the history.
    pub closed spec fn indices(&self) -> Seq<int> {
        key_indices(self.indices@)
    }

    /// The message that the final signature authorizes.
    pub closed spec fn msg(&self) -> Seq<u8> {
        self.msg@
    }

    /// The final signature.
    pub closed spec fn final_sig(&self) -> Seq<u8> {
        self.final_sig@
    }

    /// The number of operations of the history.
    pub closed spec fn len(&self) -> nat {
        self.len as nat
    }

    /// The operations handed in so far.
    pub closed spec fn seen(&self) -> Seq<Seq<u8>> {
        self.seen@
    }

    /// Whether two validations are of the same history and authorization.
    pub open spec fn same_task(&self, other: &HistoryValidation) -> bool {
        &&& self.did() == other.did()
        &&& self.indices() == other.indices()
        &&& self.msg() == other.msg()
        &&& self.final_sig() == other.final_sig()
        &&& self.len() == other.len()
    }

    /// Begins the validation of a history of `history_len` operations.
    pub fn begin(
        binary_did: &[u8],
        history_len: usize,
        rotation_key_indices: Vec<usize>,
        msg: &[u8],
        final_sig: &[u8],
    ) -> (r: Result<Self, Error>)
        ensures
            match r {
                Ok(v) => {
                    &&& history_len != 0
                    &&& history_len + 1 == rotation_key_indices@.len()
                    &&& v.did() == binary_did@
                    &&& v.indices() == key_indices(rotation_key_indices@)
                    &&& v.msg() == msg@
                    &&& v.final_sig() == final_sig@
                    &&& v.len() == history_len
                    &&& v.seen() == Seq::<Seq<u8>>::empty()
                },
                Err(e) => e == Error::InvalidHistory && !(history_len != 0 && history_len + 1
                    == rotation_key_indices@.len()),
            },
    {
        if !history_is_well_shaped(history_len, rotation_key_indices.len()) {
            return Err(Error::InvalidHistory);
        }
        Ok(
            HistoryValidation {
                binary_did: vstd::slice::slice_to_vec(binary_did),
                indices: rotation_key_indices,
                msg: vstd::slice::slice_to_vec(msg),
                final_sig: vstd::slice::slice_to_vec(final_sig),
                len: history_len,
                next: 0,
                prev: Vec::new(),
                seen: Ghost(Seq::empty()),
            },
        )
    }

    /// The place in the history of the operation that is wanted next.
    pub fn wanted(&self) -> (r: usize)
        ensures
            r == self.seen().len(),
            r < self.len(),
    {
        proof {
            use_type_invariant(self);
        }
        self.next
    }

    /// Takes the next operation of the history and validates it: the genesis
    /// operation against the identifier, a later one against the one before
    /// it, and with the last one the final authorization. Where the encoder
    /// cannot write, the history is rejected with `InvalidOperation`.
    pub fn step(self, operation: Vec<u8>) -> (r: HistoryStep)
        ensures
            match r {
                HistoryStep::Next(v) => {
                    &&& v.same_task(&self)
                    &&& v.seen() == self.seen().push(operation@)
                    &&& v.seen().len() < self.len()
                    &&& prefix_validation(self.did(), v.seen(), self.indices()) is Ok
                },
                HistoryStep::Accepted => {
                    &&& self.seen().len() + 1 == self.len()
                    &&& history_validation(
                        self.did(),
                        self.seen().push(operation@),
                        self.indices(),
                        self.msg(),
                        self.final_sig(),
                    ) is Ok
                },
                HistoryStep::Rejected(e) => {
                    let seen = self.seen().push(operation@);
                    ||| prefix_validation(self.did(), seen, self.indices()) == Err::<(), Error>(e)
                    ||| seen.len() == self.len() && history_validation(
                        self.did(),
                        seen,
                        self.indices(),
                        self.msg(),
                        self.final_sig(),
                    ) == Err::<(), Error>(e)
                    ||| e == Error::InvalidOperation && (if self.seen().len() == 0 {
                        genesis_is_encoded(operation@)
                    } else {
                        pair_is_encoded(self.seen().last(), operation@)
                    })
                },
            },
    {
        proof {
            use_type_invariant(&self);
        }
        let place = self.next;
        let ghost seen = self.seen@.push(operation@);
        let ghost indices = key_indices(self.indices@);
        assert(seen[0] == if place == 0 { operation@ } else { self.seen@[0] });
        let checked = if place == 0 {
            validate_genesis_operation(
                operation.as_slice(),
                self.binary_did.as_slice(),
                self.indices[0],
            )
        } else {
            proof {
                lemma_links_push(self.seen@, indices, 1, operation@);
            }
            validate_2_operations(
                self.prev.as_slice(),
                operation.as_slice(),
                self.indices[place],
            )
        };
        match checked {
            Ok(_) => {},
            Err(e) => { return HistoryStep::Rejected(e); },
        }
        if place + 1 < self.len {
            return HistoryStep::Next(
                HistoryValidation {
                    binary_did: self.binary_did,
                    indices: self.indices,
                    msg: self.msg,
                    final_sig: self.final_sig,
                    len: self.len,
                    next: place + 1,
                    prev: operation,
                    seen: Ghost(seen),
                },
            );
        }
        match validate_final_operation(
            operation.as_slice(),
            self.final_sig.as_slice(),
            self.msg.as_slice(),
            self.indices[self.len],
        ) {
            Ok(_) => HistoryStep::Accepted,
            Err(e) => HistoryStep::Rejected(e),
        }
    }
}

} // verus!
