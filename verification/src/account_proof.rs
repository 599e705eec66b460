//! Proofs of the balance of an account in the fee ledger.

use crate::builder;
use crate::fee::{Address, FeeAccount, FeeAmount};
use crate::merkle::LookupResult;
use crate::u256::U256;
use vstd::prelude::*;
use vstd::string::*;

verus! {

/// A proof of the balance of an account in the fee ledger.
///
/// If the account does not exist in the fee state, this is a Merkle
/// non-membership proof, and the balance is implicitly zero. Otherwise, this is a
/// normal Merkle membership proof.
#[derive(Clone, Debug, PartialEq, Eq)]
pub struct FeeAccountProof<M, N> {
    pub account: Address,
    pub proof: FeeMerkleProof<M, N>,
}

/// A proof out of the fee tree.
#[derive(Clone, Debug, PartialEq, Eq)]
pub enum FeeMerkleProof<M, N> {
    /// The account is in the tree.
    Presence(M),
    /// The account is not in the tree.
    Absence(N),
}

/// What to ask of the fee tree about a proof.
#[derive(Debug, PartialEq, Eq)]
pub enum ProofQuery<'a, M, N> {
    /// Whether this proves that the account is in the tree.
    Membership(FeeAccount, &'a M),
    /// Whether this proves that the account is not in the tree.
    NonMembership(FeeAccount, &'a N),
}

/// What to add to a fee tree that does not remember all of itself.
#[derive(Debug, PartialEq, Eq)]
pub enum RememberAction<'a, M, N> {
    /// The account, its balance and the proof of both.
    Remember(FeeAccount, FeeAmount, &'a M),
    /// That the account is not in the tree, and the proof of it.
    RememberAbsence(FeeAccount, &'a N),
}

/// Why a proof does not give a balance.
#[derive(Clone, Copy, Debug, PartialEq, Eq)]
pub enum FeeProofError<E> {
    /// The fee tree could not tell.
    Tree(E),
    /// The fee tree refused the proof.
    InvalidProof,
    /// The proof says that the account is in the tree, and not with what balance.
    MissingBalance,
}

/// The balance that a proof gives, from the fee tree's verdict on it and the
/// balance that it holds.
pub open spec fn verified_balance<M, N, E>(
    proof: FeeMerkleProof<M, N>,
    verdict: Result<bool, E>,
    elem: Option<FeeAmount>,
) -> Result<nat, FeeProofError<E>> {
    match (verdict, proof, elem) {
        (Err(e), _, _) => Err(FeeProofError::Tree(e)),
        (Ok(false), _, _) => Err(FeeProofError::InvalidProof),
        (Ok(true), FeeMerkleProof::Absence(_), _) => Ok(0),
        (Ok(true), FeeMerkleProof::Presence(_), None) => Err(FeeProofError::MissingBalance),
        (Ok(true), FeeMerkleProof::Presence(_), Some(balance)) => Ok(balance@),
    }
}

/// Whether `r` is the balance and its proof that a lookup of `account` gives:
/// a membership proof with the balance that was found, a non-membership proof with
/// nothing where the account does not exist, and neither where the tree does not
/// remember.
pub open spec fn proved<M, N>(
    lookup: LookupResult<FeeAmount, M, N>,
    account: Address,
    r: Option<(U256, FeeAccountProof<M, N>)>,
) -> bool {
    match lookup {
        LookupResult::Found(balance, proof) => r == Some(
            (
                balance.0,
                FeeAccountProof { account, proof: FeeMerkleProof::<M, N>::Presence(proof) },
            ),
        ),
        LookupResult::NotFound(proof) => {
            &&& r matches Some((balance, given))
            &&& balance@ == 0
            &&& given == (FeeAccountProof {
                account,
                proof: FeeMerkleProof::<M, N>::Absence(proof),
            })
        },
        LookupResult::NotInMemory => r is None,
    }
}

/// What to add to a fee tree for it to remember what a proof is about: the account
/// with the balance that a membership proof holds, or that there is no such account.
pub open spec fn remembered<'a, M, N, E>(
    proof: &'a FeeAccountProof<M, N>,
    elem: Option<FeeAmount>,
) -> Result<RememberAction<'a, M, N>, FeeProofError<E>> {
    match (proof.proof, elem) {
        (FeeMerkleProof::Presence(p), Some(balance)) => Ok(
            RememberAction::Remember(FeeAccount(proof.account), balance, &p),
        ),
        (FeeMerkleProof::Presence(_), None) => Err(FeeProofError::MissingBalance),
        (FeeMerkleProof::Absence(p), _) => Ok(
            RememberAction::RememberAbsence(FeeAccount(proof.account), &p),
        ),
    }
}

impl<M, N> FeeAccountProof<M, N> {
    /// The balance of an account and the proof of it, from a lookup of the account
    /// in the fee tree.
    pub fn prove(lookup: LookupResult<FeeAmount, M, N>, account: Address) -> (r: Option<
        (U256, Self),
    >)
        ensures
            proved(lookup, account, r),
            r is None <==> lookup is NotInMemory,
            lookup matches LookupResult::Found(found, p) ==> r == Some(
                (found.0, FeeAccountProof { account, proof: FeeMerkleProof::<M, N>::Presence(p) }),
            ),
            lookup matches LookupResult::NotFound(p) ==> r matches Some((balance, given))
                && balance@ == 0 && given == (FeeAccountProof {
                account,
                proof: FeeMerkleProof::<M, N>::Absence(p),
            }),
    {
        match lookup {
            LookupResult::Found(balance, proof) => Some(
                (balance.0, FeeAccountProof { account, proof: FeeMerkleProof::Presence(proof) }),
            ),
            LookupResult::NotFound(proof) => Some(
                (
                    U256::from_u64(0),
                    FeeAccountProof { account, proof: FeeMerkleProof::Absence(proof) },
                ),
            ),
            LookupResult::NotInMemory => None,
        }
    }

    /// What to ask of the fee tree before `verify`.
    pub fn query(&self) -> (r: ProofQuery<'_, M, N>)
        ensures
            r == (match self.proof {
                FeeMerkleProof::Presence(proof) => ProofQuery::Membership(
                    FeeAccount(self.account),
                    &proof,
                ),
                FeeMerkleProof::Absence(proof) => ProofQuery::NonMembership(
                    FeeAccount(self.account),
                    &proof,
                ),
            }),
    {
        match &self.proof {
            FeeMerkleProof::Presence(proof) => ProofQuery::Membership(
                FeeAccount(self.account),
                proof,
            ),
            FeeMerkleProof::Absence(proof) => ProofQuery::NonMembership(
                FeeAccount(self.account),
                proof,
            ),
        }
    }

    /// The balance of the account, from the fee tree's verdict on the proof and the
    /// balance that a membership proof holds. An account that is proved not to be
    /// in the tree has nothing.
    pub fn verify<E>(&self, verdict: Result<bool, E>, elem: Option<FeeAmount>) -> (r: Result<
        U256,
        FeeProofError<E>,
    >)
        ensures
            match r {
                Ok(balance) => verified_balance(self.proof, verdict, elem) == Ok::<
                    nat,
                    FeeProofError<E>,
                >(balance@),
                Err(e) => verified_balance(self.proof, verdict, elem) == Err::<
                    nat,
                    FeeProofError<E>,
                >(e),
            },
            r is Ok <==> verdict == Ok::<bool, E>(true) && (self.proof is Absence || elem is Some),
            r matches Ok(balance) ==> self.proof is Absence ==> balance@ == 0,
            r matches Ok(balance) ==> self.proof is Presence ==> elem == Some(FeeAmount(balance)),
            verdict matches Err(e) ==> r == Err::<U256, FeeProofError<E>>(FeeProofError::Tree(e)),
            verdict == Ok::<bool, E>(false) ==> r == Err::<U256, FeeProofError<E>>(
                FeeProofError::InvalidProof,
            ),
    {
        match verdict {
            Err(e) => Err(FeeProofError::Tree(e)),
            Ok(valid) => {
                if !valid {
                    return Err(FeeProofError::InvalidProof);
                }
                match &self.proof {
                    FeeMerkleProof::Presence(_) => match elem {
                        Some(balance) => Ok(balance.0),
                        None => Err(FeeProofError::MissingBalance),
                    },
                    FeeMerkleProof::Absence(_) => Ok(U256::from_u64(0)),
                }
            },
        }
    }

    /// What to add to a fee tree for it to remember what the proof is about, from
    /// the balance that a membership proof holds.
    pub fn remember<E>(&self, elem: Option<FeeAmount>) -> (r: Result<
        RememberAction<'_, M, N>,
        FeeProofError<E>,
    >)
        ensures
            r == remembered::<M, N, E>(self, elem),
            r is Ok <==> self.proof is Absence || elem is Some,
            r matches Err(e) ==> e is MissingBalance,
            self.proof matches FeeMerkleProof::Absence(p) ==> r == Ok::<
                RememberAction<'_, M, N>,
                FeeProofError<E>,
            >(RememberAction::RememberAbsence(FeeAccount(self.account), &p)),
            self.proof matches FeeMerkleProof::Presence(p) ==> elem matches Some(balance) ==> r
                == Ok::<RememberAction<'_, M, N>, FeeProofError<E>>(
                RememberAction::Remember(FeeAccount(self.account), balance, &p),
            ),
    {
        match &self.proof {
            FeeMerkleProof::Presence(proof) => match elem {
                Some(balance) => Ok(
                    RememberAction::Remember(FeeAccount(self.account), balance, proof),
                ),
                None => Err(FeeProofError::MissingBalance),
            },
            FeeMerkleProof::Absence(proof) => Ok(
                RememberAction::RememberAbsence(FeeAccount(self.account), proof),
            ),
        }
    }
}

impl<E> FeeProofError<E> {
    /// What is said of the error, where it is not the fee tree's own.
    pub fn message(&self) -> (r: Option<String>)
        ensures
            match self {
                FeeProofError::Tree(_) => r is None,
                FeeProofError::InvalidProof => r matches Some(s) && s@ == "invalid proof"@,
                FeeProofError::MissingBalance => r matches Some(s) && s@
                    == "presence proof is missing account balance"@,
            },
    {
        match self {
            FeeProofError::Tree(_) => None,
            FeeProofError::InvalidProof => Some("invalid proof".to_owned()),
            FeeProofError::MissingBalance => Some(
                "presence proof is missing account balance".to_owned(),
            ),
        }
    }
}

/// Only of an account that the tree does not remember is nothing proved. Any balance
/// that was found, however large, is proved as it was found and by the proof that was
/// found; an account that is not there is proved to have nothing.
pub proof fn only_forgotten_accounts_are_not_proved<M, N>(
    lookup: LookupResult<FeeAmount, M, N>,
    account: Address,
    r: Option<(U256, FeeAccountProof<M, N>)>,
)
    requires
        proved(lookup, account, r),
    ensures
        r is None <==> lookup is NotInMemory,
        lookup matches LookupResult::Found(found, p) ==> r matches Some((balance, given))
            && balance == found.0 && given.account == account && given.proof
            == FeeMerkleProof::<M, N>::Presence(p),
        lookup matches LookupResult::NotFound(p) ==> r matches Some((balance, given))
            && balance@ == 0 && given.account == account && given.proof
            == FeeMerkleProof::<M, N>::Absence(p),
{
}

/// A proof gives a balance exactly where the tree accepts it, and it is of absence or
/// holds a balance: nothing in the first case, what it holds in the second. Otherwise
/// the error is the tree's own, a refusal, or a missing balance, in this order.
pub proof fn accepted_proofs_give_what_they_hold<M, N, E>(
    proof: FeeMerkleProof<M, N>,
    verdict: Result<bool, E>,
    elem: Option<FeeAmount>,
)
    ensures
        ({
            let r = verified_balance(proof, verdict, elem);
            &&& r is Ok <==> verdict == Ok::<bool, E>(true) && (proof is Absence || elem is Some)
            &&& r matches Ok(balance) ==> proof is Absence ==> balance == 0
            &&& r matches Ok(balance) ==> proof is Presence ==> (
            elem matches Some(held) && balance == held.0@)
            &&& (r matches Err(e) && e is Tree) <==> verdict is Err
            &&& (r matches Err(FeeProofError::Tree(e)) ==> verdict == Err::<bool, E>(e))
            &&& (r matches Err(e) && e is InvalidProof) <==> verdict == Ok::<bool, E>(false)
            &&& (r matches Err(e) && e is MissingBalance) <==> verdict == Ok::<bool, E>(true)
                && proof is Presence && elem is None
        }),
{
}

/// A balance that was proved is the balance that the proof gives, once the fee
/// tree accepts it: a membership proof holds the balance that was found.
pub proof fn proof_gives_proved_balance<M, N, E>(
    lookup: LookupResult<FeeAmount, M, N>,
    account: Address,
    balance: U256,
    proof: FeeAccountProof<M, N>,
    elem: Option<FeeAmount>,
)
    requires
        proved(lookup, account, Some((balance, proof))),
        lookup matches LookupResult::Found(found, _) ==> elem == Some(found),
    ensures
        proof.account == account,
        verified_balance::<M, N, E>(proof.proof, Ok(true), elem) == Ok::<nat, FeeProofError<E>>(
            balance@,
        ),
{
}

/// An account that is not in the fee tree is proved by a non-membership proof, and
/// one that is by a membership proof.
pub proof fn proof_kind_tells_existence<M, N>(
    lookup: LookupResult<FeeAmount, M, N>,
    account: Address,
    balance: U256,
    proof: FeeAccountProof<M, N>,
)
    requires
        proved(lookup, account, Some((balance, proof))),
    ensures
        proof.proof is Presence <==> lookup is Found,
        proof.proof is Absence <==> lookup is NotFound,
        proof.proof is Absence ==> balance@ == 0,
{
}

/// Whether the verdict of a fee tree on a proof can be relied on: what it accepts is
/// so in the ledger that the tree holds, whoever made the proof.
pub open spec fn sound<M, N, E>(
    proof: FeeAccountProof<M, N>,
    verdict: Result<bool, E>,
    elem: Option<FeeAmount>,
    ledger: builder::Ledger,
) -> bool {
    verdict == Ok::<bool, E>(true) ==> match proof.proof {
        FeeMerkleProof::Presence(_) => elem matches Some(found) ==> ledger.contains_key(
            proof.account@,
        ) && ledger[proof.account@] == found@,
        FeeMerkleProof::Absence(_) => !ledger.contains_key(proof.account@),
    }
}

/// A balance that verifies against a fee tree of sound verdicts is the account's
/// balance in it, and nothing for an account that is not there.
pub proof fn verified_balance_is_true<M, N, E>(
    proof: FeeAccountProof<M, N>,
    verdict: Result<bool, E>,
    elem: Option<FeeAmount>,
    ledger: builder::Ledger,
    balance: nat,
)
    requires
        sound(proof, verdict, elem, ledger),
        verified_balance(proof.proof, verdict, elem) == Ok::<nat, FeeProofError<E>>(balance),
    ensures
        balance == builder::balance(ledger, proof.account@),
{
}

/// Any two proofs for one account that verify against one fee tree of sound verdicts
/// give the same balance, which is also the one that a truthful lookup proves.
pub proof fn verified_balances_agree<M, N, E>(
    a: FeeAccountProof<M, N>,
    a_verdict: Result<bool, E>,
    a_elem: Option<FeeAmount>,
    a_balance: nat,
    b: FeeAccountProof<M, N>,
    b_verdict: Result<bool, E>,
    b_elem: Option<FeeAmount>,
    b_balance: nat,
    ledger: builder::Ledger,
    lookup: LookupResult<FeeAmount, M, N>,
    given: Option<(U256, FeeAccountProof<M, N>)>,
)
    requires
        a.account == b.account,
        sound(a, a_verdict, a_elem, ledger),
        sound(b, b_verdict, b_elem, ledger),
        verified_balance(a.proof, a_verdict, a_elem) == Ok::<nat, FeeProofError<E>>(a_balance),
        verified_balance(b.proof, b_verdict, b_elem) == Ok::<nat, FeeProofError<E>>(b_balance),
        lookup is NotInMemory || builder::truthful(lookup, ledger, a.account@),
        proved(lookup, a.account, given),
    ensures
        a_balance == b_balance,
        given matches Some((balance, _)) ==> balance@ == a_balance,
{
    verified_balance_is_true(a, a_verdict, a_elem, ledger, a_balance);
    verified_balance_is_true(b, b_verdict, b_elem, ledger, b_balance);
}

/// A fee tree after what `remember` asks for: as `act` leaves it, or untouched where
/// nothing is asked for.
pub open spec fn after_remember<'a, T, M, N, E>(
    proof: &'a FeeAccountProof<M, N>,
    elem: Option<FeeAmount>,
    tree: T,
    act: spec_fn(T, RememberAction<'a, M, N>) -> T,
) -> T {
    match remembered::<M, N, E>(proof, elem) {
        Ok(action) => act(tree, action),
        Err(_) => tree,
    }
}

/// Whether a lookup of an account answers as an action told the tree.
pub open spec fn recalls<'a, M, N>(
    action: RememberAction<'a, M, N>,
    lookup: LookupResult<FeeAmount, M, N>,
) -> bool {
    match action {
        RememberAction::Remember(_, balance, _) => lookup matches LookupResult::Found(found, _)
            && found == balance,
        RememberAction::RememberAbsence(_, _) => lookup is NotFound,
    }
}

/// Remembering undoes forgetting: with a proof out of a full tree, `remember` never
/// fails, and asks for the account, what was found of it, and that proof. A tree that
/// recalls what it was told then proves the same balance, be it of an account that is
/// there or of one that is not.
pub proof fn remembering_undoes_forgetting<'a, T, M, N, E>(
    full: LookupResult<FeeAmount, M, N>,
    account: Address,
    balance: U256,
    proof: &'a FeeAccountProof<M, N>,
    elem: Option<FeeAmount>,
    tree: T,
    act: spec_fn(T, RememberAction<'a, M, N>) -> T,
    look: spec_fn(T, FeeAccount) -> LookupResult<FeeAmount, M, N>,
    again: Option<(U256, FeeAccountProof<M, N>)>,
)
    requires
        proved(full, account, Some((balance, *proof))),
        full matches LookupResult::Found(found, _) ==> elem == Some(found),
        remembered::<M, N, E>(proof, elem) matches Ok(action) ==> recalls(
            action,
            look(act(tree, action), FeeAccount(account)),
        ),
        proved(
            look(after_remember::<T, M, N, E>(proof, elem, tree, act), FeeAccount(account)),
            account,
            again,
        ),
    ensures
        full matches LookupResult::Found(found, p) ==> remembered::<M, N, E>(proof, elem) == Ok::<
            RememberAction<'a, M, N>,
            FeeProofError<E>,
        >(RememberAction::Remember(FeeAccount(account), found, &p)),
        full matches LookupResult::NotFound(p) ==> remembered::<M, N, E>(proof, elem) == Ok::<
            RememberAction<'a, M, N>,
            FeeProofError<E>,
        >(RememberAction::RememberAbsence(FeeAccount(account), &p)),
        again matches Some((b, _)) && b@ == balance@,
{
}

/// Remembering keeps the commitment of a tree, whatever the proof, where no action on
/// the tree changes it. A membership proof that holds no balance is an error and
/// leaves the tree as it was.
pub proof fn remembering_keeps_commitment<'a, T, M, N, E>(
    proof: &'a FeeAccountProof<M, N>,
    elem: Option<FeeAmount>,
    tree: T,
    act: spec_fn(T, RememberAction<'a, M, N>) -> T,
    comm: spec_fn(T) -> Seq<u8>,
)
    requires
        forall|action: RememberAction<'a, M, N>| comm(#[trigger] act(tree, action)) == comm(tree),
    ensures
        comm(after_remember::<T, M, N, E>(proof, elem, tree, act)) == comm(tree),
        proof.proof is Presence && elem is None ==> {
            &&& remembered::<M, N, E>(proof, elem) == Err::<
                RememberAction<'a, M, N>,
                FeeProofError<E>,
            >(FeeProofError::MissingBalance)
            &&& after_remember::<T, M, N, E>(proof, elem, tree, act) == tree
        },
{
}

} // verus!
