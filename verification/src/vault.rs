use crate::amount::Amount;
use crate::errors::VaultError;
use crate::identity::Identity;
use vstd::prelude::*;

verus! {

/// The token identifier seeded onto the whitelist at initialization.
pub const DEFAULT_TOKEN_ID: u128 = 1;

/// One completed deposit, recorded once the external ledger confirmed the
/// transfer. Immutable once appended.
pub struct DepositInfo {
    pub nonce: u128,
    pub depositor: Identity,
    pub token: Identity,
    pub amount: Amount,
    pub timestamp: u128,
    pub destination: String,
    pub deposit_id: String,
}

/// One completed withdrawal, recorded once the external ledger confirmed
/// the transfer. Immutable once appended.
pub struct WithdrawInfo {
    pub nonce: u128,
    pub recipient: Identity,
    pub token: Identity,
    pub amount: Amount,
    pub timestamp: u128,
}

/// Mathematical image of a deposit record.
#[verifier::ext_equal]
pub struct DepositRecord {
    pub nonce: u128,
    pub depositor: Identity,
    pub token: Identity,
    pub amount: nat,
    pub timestamp: u128,
    pub destination: Seq<char>,
    pub deposit_id: Seq<char>,
}

/// Mathematical image of a withdrawal record.
#[verifier::ext_equal]
pub struct WithdrawalRecord {
    pub nonce: u128,
    pub recipient: Identity,
    pub token: Identity,
    pub amount: nat,
    pub timestamp: u128,
}

pub open spec fn dep_view(d: DepositInfo) -> DepositRecord {
    DepositRecord {
        nonce: d.nonce,
        depositor: d.depositor,
        token: d.token,
        amount: d.amount.value(),
        timestamp: d.timestamp,
        destination: d.destination@,
        deposit_id: d.deposit_id@,
    }
}

pub open spec fn wd_view(w: WithdrawInfo) -> WithdrawalRecord {
    WithdrawalRecord {
        nonce: w.nonce,
        recipient: w.recipient,
        token: w.token,
        amount: w.amount.value(),
        timestamp: w.timestamp,
    }
}

impl Clone for DepositInfo {
    fn clone(&self) -> (r: Self)
        ensures
            dep_view(r) == dep_view(*self),
    {
        DepositInfo {
            nonce: self.nonce,
            depositor: self.depositor,
            token: self.token,
            amount: self.amount.duplicate(),
            timestamp: self.timestamp,
            destination: self.destination.clone(),
            deposit_id: self.deposit_id.clone(),
        }
    }
}

impl Clone for WithdrawInfo {
    fn clone(&self) -> (r: Self)
        ensures
            wd_view(r) == wd_view(*self),
    {
        WithdrawInfo {
            nonce: self.nonce,
            recipient: self.recipient,
            token: self.token,
            amount: self.amount.duplicate(),
            timestamp: self.timestamp,
        }
    }
}

/// Mathematical image of the whole gateway state.
#[verifier::ext_equal]
pub struct VaultView {
    pub owner: Identity,
    pub admin: Identity,
    pub fund_receiver: Identity,
    pub whitelist: Seq<Identity>,
    pub deposits: Seq<DepositRecord>,
    pub withdrawals: Seq<WithdrawalRecord>,
    pub used_requests: Seq<Seq<char>>,
}

/// What always holds of a gateway state: records carry their own position
/// as sequence number, the whitelist holds no token twice, and no request
/// id is recorded as consumed twice.
pub open spec fn inv(v: VaultView) -> bool {
    &&& forall|i: int| 0 <= i < v.deposits.len() ==> (#[trigger] v.deposits[i]).nonce as int == i
    &&& forall|i: int|
        0 <= i < v.withdrawals.len() ==> (#[trigger] v.withdrawals[i]).nonce as int == i
    &&& forall|i: int, j: int|
        0 <= i < j < v.whitelist.len() ==> v.whitelist[i] != v.whitelist[j]
    &&& forall|i: int, j: int|
        0 <= i < j < v.used_requests.len() ==> v.used_requests[i] != v.used_requests[j]
}

/// What the gateway asks the external ledger to do for a deposit: pull
/// `amount` of `token` from the depositor's account into the treasury.
#[derive(Debug)]
pub struct DelegatedTransferRequest {
    pub token: Identity,
    pub from: Identity,
    pub to: Identity,
    pub amount: Amount,
}

/// What the gateway asks the external ledger to do for a withdrawal: push
/// `amount` of `token` from the treasury to the recipient.
#[derive(Debug)]
pub struct TransferRequest {
    pub token: Identity,
    pub to: Identity,
    pub amount: Amount,
}

/// How the external ledger call ended, as the hosting runtime reports it
/// back to the gateway.
#[derive(Debug)]
pub enum TransferOutcome {
    /// The ledger moved the funds.
    Completed,
    /// The call itself did not go through (transport failure).
    CallFailed(String),
    /// The ledger answered and refused the transfer.
    Rejected(String),
}

/// Why a deposit is refused before any ledger call is made.
pub open spec fn deposit_refusal(v: VaultView, token: Identity) -> Option<VaultError> {
    if !v.whitelist.contains(token) {
        Some(VaultError::TokenNotWhitelisted)
    } else {
        None
    }
}

/// Why a withdrawal is refused before any ledger call is made: the checks
/// run in this order, so a caller who is not the admin learns nothing else.
pub open spec fn withdraw_refusal(
    v: VaultView,
    caller: Identity,
    amount: nat,
    request_id: Seq<char>,
) -> Option<VaultError> {
    if caller != v.admin {
        Some(VaultError::Unauthorized)
    } else if amount == 0 {
        Some(VaultError::InvalidAmount)
    } else if v.used_requests.contains(request_id) {
        Some(VaultError::DuplicateRequest)
    } else {
        None
    }
}

/// How many records a page holds: all of them from `from_nonce` on, but at
/// most `limit`, and none when `from_nonce` is past the end.
pub open spec fn page_len(total: nat, from_nonce: u128, limit: u128) -> nat {
    if total <= from_nonce as nat {
        0
    } else if total - from_nonce as nat <= limit as nat {
        (total - from_nonce as nat) as nat
    } else {
        limit as nat
    }
}

/// The custody gateway: roles, the deposit whitelist, both append-only
/// ledgers with their counters, and the replay guard for withdrawal
/// request ids.
///
/// The gateway never talks to the external ledger itself. An operation
/// with a transfer is split in two: a prepare step that runs the
/// synchronous checks and hands back the transfer request, and a commit
/// step that takes the transfer's outcome and records it. Between the two
/// the hosting runtime awaits the ledger, and other operations may run
/// against this same state. Two hazards of that window are kept on
/// purpose: a deposit's whitelist check is not re-run at commit time, and
/// a withdrawal's request id is only recorded as consumed at commit time,
/// so two in-flight withdrawals with one id can both pass the prepare
/// checks.
pub struct Vault {
    owner: Identity,
    admin: Identity,
    fund_receiver: Identity,
    whitelist: Vec<Identity>,
    deposits: Vec<DepositInfo>,
    deposit_counter: u128,
    withdrawals: Vec<WithdrawInfo>,
    withdraw_counter: u128,
    used_requests: Vec<String>,
}

impl View for Vault {
    type V = VaultView;

    closed spec fn view(&self) -> VaultView {
        VaultView {
            owner: self.owner,
            admin: self.admin,
            fund_receiver: self.fund_receiver,
            whitelist: self.whitelist@,
            deposits: self.deposits@.map_values(|d: DepositInfo| dep_view(d)),
            withdrawals: self.withdrawals@.map_values(|w: WithdrawInfo| wd_view(w)),
            used_requests: self.used_requests@.map_values(|s: String| s@),
        }
    }
}

impl Vault {
    /// The state is well formed: the view satisfies its invariant and each
    /// counter equals the length of its ledger.
    pub closed spec fn wf(&self) -> bool {
        &&& inv(self@)
        &&& self.deposit_counter as nat == self.deposits@.len()
        &&& self.withdraw_counter as nat == self.withdrawals@.len()
    }

    /// A well-formed gateway satisfies the view-level invariant.
    pub proof fn lemma_wf_inv(&self)
        requires
            self.wf(),
        ensures
            inv(self@),
    {
    }

    /// Creates the gateway with its initial roles, empty ledgers, and the
    /// default token already whitelisted. A missing fund receiver is left
    /// at the anonymous sentinel until the owner sets one.
    pub fn init(
        init_owner: Identity,
        init_admin: Identity,
        init_fund_receiver: Option<Identity>,
    ) -> (v: Vault)
        ensures
            v.wf(),
            v@.owner == init_owner,
            v@.admin == init_admin,
            v@.fund_receiver == (match init_fund_receiver {
                Some(r) => r,
                None => Identity::anonymous_spec(),
            }),
            v@.whitelist == seq![Identity { id: DEFAULT_TOKEN_ID }],
            v@.deposits == Seq::<DepositRecord>::empty(),
            v@.withdrawals == Seq::<WithdrawalRecord>::empty(),
            v@.used_requests == Seq::<Seq<char>>::empty(),
    {
        let fund_receiver = match init_fund_receiver {
            Some(r) => r,
            None => Identity::anonymous(),
        };
        let mut whitelist: Vec<Identity> = Vec::new();
        whitelist.push(Identity { id: DEFAULT_TOKEN_ID });
        let v = Vault {
            owner: init_owner,
            admin: init_admin,
            fund_receiver,
            whitelist,
            deposits: Vec::new(),
            deposit_counter: 0,
            withdrawals: Vec::new(),
            withdraw_counter: 0,
            used_requests: Vec::new(),
        };
        proof {
            assert(v.whitelist@ =~= seq![Identity { id: DEFAULT_TOKEN_ID }]);
            assert(v@.deposits =~= Seq::<DepositRecord>::empty());
            assert(v@.withdrawals =~= Seq::<WithdrawalRecord>::empty());
            assert(v@.used_requests =~= Seq::<Seq<char>>::empty());
        }
        v
    }

    /// Hands ownership to `new_owner`; only the current owner may.
    pub fn change_owner(&mut self, caller: Identity, new_owner: Identity) -> (r: Result<
        (),
        VaultError,
    >)
        requires
            old(self).wf(),
        ensures
            final(self).wf(),
            caller != old(self)@.owner ==> r == Err::<(), VaultError>(VaultError::Unauthorized)
                && final(self)@ == old(self)@,
            caller == old(self)@.owner ==> r == Ok::<(), VaultError>(()) && final(self)@ == (VaultView {
                owner: new_owner,
                ..old(self)@
            }),
    {
        if caller.id != self.owner.id {
            return Err(VaultError::Unauthorized);
        }
        self.owner = new_owner;
        Ok(())
    }

    /// Installs a new admin; only the owner may.
    pub fn set_admin(&mut self, caller: Identity, new_admin: Identity) -> (r: Result<
        (),
        VaultError,
    >)
        requires
            old(self).wf(),
        ensures
            final(self).wf(),
            caller != old(self)@.owner ==> r == Err::<(), VaultError>(VaultError::Unauthorized)
                && final(self)@ == old(self)@,
            caller == old(self)@.owner ==> r == Ok::<(), VaultError>(()) && final(self)@ == (VaultView {
                admin: new_admin,
                ..old(self)@
            }),
    {
        if caller.id != self.owner.id {
            return Err(VaultError::Unauthorized);
        }
        self.admin = new_admin;
        Ok(())
    }

    /// Points the treasury at a new fund receiver; only the owner may.
    pub fn set_fund_receiver(&mut self, caller: Identity, new_fund_receiver: Identity) -> (r:
        Result<(), VaultError>)
        requires
            old(self).wf(),
        ensures
            final(self).wf(),
            caller != old(self)@.owner ==> r == Err::<(), VaultError>(VaultError::Unauthorized)
                && final(self)@ == old(self)@,
            caller == old(self)@.owner ==> r == Ok::<(), VaultError>(()) && final(self)@ == (VaultView {
                fund_receiver: new_fund_receiver,
                ..old(self)@
            }),
    {
        if caller.id != self.owner.id {
            return Err(VaultError::Unauthorized);
        }
        self.fund_receiver = new_fund_receiver;
        Ok(())
    }

    pub fn get_owner(&self) -> (r: Identity)
        ensures
            r == self@.owner,
    {
        self.owner
    }

    pub fn get_admin(&self) -> (r: Identity)
        ensures
            r == self@.admin,
    {
        self.admin
    }

    pub fn get_fund_receiver(&self) -> (r: Identity)
        ensures
            r == self@.fund_receiver,
    {
        self.fund_receiver
    }

    fn find_token(&self, token: Identity) -> (r: Option<usize>)
        ensures
            match r {
                Some(i) => i < self@.whitelist.len() && self@.whitelist[i as int] == token,
                None => !self@.whitelist.contains(token),
            },
    {
        let mut i: usize = 0;
        while i < self.whitelist.len()
            invariant
                i <= self.whitelist@.len(),
                forall|j: int| 0 <= j < i ==> self.whitelist@[j] != token,
            decreases self.whitelist@.len() - i,
        {
            if self.whitelist[i].id == token.id {
                return Some(i);
            }
            i = i + 1;
        }
        None
    }

    /// Whether deposits of `token` are accepted.
    pub fn contains(&self, token: Identity) -> (b: bool)
        ensures
            b == self@.whitelist.contains(token),
    {
        self.find_token(token).is_some()
    }

    /// Puts `token` on the deposit whitelist; only the admin may, and a
    /// token already listed is refused.
    pub fn add_token_to_whitelist(&mut self, caller: Identity, token: Identity) -> (r: Result<
        (),
        VaultError,
    >)
        requires
            old(self).wf(),
        ensures
            final(self).wf(),
            caller != old(self)@.admin ==> r == Err::<(), VaultError>(VaultError::Unauthorized)
                && final(self)@ == old(self)@,
            caller == old(self)@.admin && old(self)@.whitelist.contains(token) ==> r == Err::<
                (),
                VaultError,
            >(VaultError::AlreadyWhitelisted) && final(self)@ == old(self)@,
            caller == old(self)@.admin && !old(self)@.whitelist.contains(token) ==> r == Ok::<
                (),
                VaultError,
            >(()) && final(self)@ == (VaultView { whitelist: old(self)@.whitelist.push(token), ..old(
                self,
            )@ }),
    {
        if caller.id != self.admin.id {
            return Err(VaultError::Unauthorized);
        }
        if self.contains(token) {
            return Err(VaultError::AlreadyWhitelisted);
        }
        self.whitelist.push(token);
        Ok(())
    }

    /// Takes `token` off the deposit whitelist; only the admin may, and a
    /// token not listed is refused. Every other token keeps its standing.
    pub fn remove_token_from_whitelist(&mut self, caller: Identity, token: Identity) -> (r: Result<
        (),
        VaultError,
    >)
        requires
            old(self).wf(),
        ensures
            final(self).wf(),
            caller != old(self)@.admin ==> r == Err::<(), VaultError>(VaultError::Unauthorized)
                && final(self)@ == old(self)@,
            caller == old(self)@.admin && !old(self)@.whitelist.contains(token) ==> r == Err::<
                (),
                VaultError,
            >(VaultError::NotWhitelisted) && final(self)@ == old(self)@,
            caller == old(self)@.admin && old(self)@.whitelist.contains(token) ==> {
                &&& r == Ok::<(), VaultError>(())
                &&& !final(self)@.whitelist.contains(token)
                &&& forall|t: Identity|
                    t != token ==> final(self)@.whitelist.contains(t) == old(self)@.whitelist.contains(t)
                &&& final(self)@ == (VaultView { whitelist: final(self)@.whitelist, ..old(self)@ })
            },
    {
        if caller.id != self.admin.id {
            return Err(VaultError::Unauthorized);
        }
        let found = self.find_token(token);
        match found {
            None => Err(VaultError::NotWhitelisted),
            Some(i) => {
                let ghost pre = self.whitelist@;
                self.whitelist.remove(i);
                proof {
                    let post = self.whitelist@;
                    assert(inv(old(self)@));
                    assert(self@.deposits == old(self)@.deposits);
                    assert(self@.withdrawals == old(self)@.withdrawals);
                    assert(self@.used_requests == old(self)@.used_requests);
                    assert(post =~= pre.remove(i as int));
                    pre.remove_ensures(i as int);
                    assert forall|j: int| 0 <= j < post.len() implies post[j] != token by {
                        if j < i {
                            assert(post[j] == pre[j]);
                        } else {
                            assert(post[j] == pre[j + 1]);
                        }
                    }
                    assert forall|t: Identity|
                        t != token implies post.contains(t) == pre.contains(t) by {
                        if post.contains(t) {
                            let j = choose|j: int| 0 <= j < post.len() && post[j] == t;
                            if j < i {
                                assert(pre[j] == t);
                            } else {
                                assert(pre[j + 1] == t);
                            }
                        }
                        if pre.contains(t) {
                            let j = choose|j: int| 0 <= j < pre.len() && pre[j] == t;
                            if j < i {
                                assert(post[j] == t);
                            } else {
                                assert(j != i);
                                assert(post[j - 1] == t);
                            }
                        }
                    }
                    assert forall|a: int, b: int|
                        0 <= a < b < post.len() implies post[a] != post[b] by {
                        let pa: int = if a < i {
                            a
                        } else {
                            a + 1
                        };
                        let pb: int = if b < i {
                            b
                        } else {
                            b + 1
                        };
                        assert(post[a] == pre[pa]);
                        assert(post[b] == pre[pb]);
                    }
                }
                Ok(())
            },
        }
    }

    /// The whitelisted tokens, each exactly once.
    pub fn get_whitelist(&self) -> (r: Vec<Identity>)
        ensures
            r@ == self@.whitelist,
    {
        let mut out: Vec<Identity> = Vec::new();
        let mut i: usize = 0;
        while i < self.whitelist.len()
            invariant
                i <= self.whitelist@.len(),
                out@ =~= self.whitelist@.subrange(0, i as int),
            decreases self.whitelist@.len() - i,
        {
            out.push(self.whitelist[i]);
            i = i + 1;
        }
        proof {
            assert(out@ =~= self.whitelist@);
        }
        out
    }

    fn used_contains(&self, request_id: &String) -> (b: bool)
        ensures
            b == self@.used_requests.contains(request_id@),
    {
        let mut i: usize = 0;
        while i < self.used_requests.len()
            invariant
                i <= self.used_requests@.len(),
                forall|j: int| 0 <= j < i ==> self.used_requests@[j]@ != request_id@,
            decreases self.used_requests@.len() - i,
        {
            if self.used_requests[i] == *request_id {
                proof {
                    assert(self@.used_requests[i as int] == request_id@);
                }
                return true;
            }
            i = i + 1;
        }
        proof {
            assert forall|j: int|
                0 <= j < self@.used_requests.len() implies self@.used_requests[j]
                != request_id@ by {
                assert(self@.used_requests[j] == self.used_requests@[j]@);
            }
        }
        false
    }

    /// Runs a deposit's synchronous checks and builds the transfer the
    /// external ledger is to perform: pull `amount` of `token` from the
    /// depositor into the treasury. Nothing is recorded here; the ledger's
    /// answer goes to `deposit_commit`. The whitelist is consulted only
    /// now, not again at commit time.
    pub fn deposit_prepare(&self, caller: Identity, token: Identity, amount: Amount) -> (r: Result<
        DelegatedTransferRequest,
        VaultError,
    >)
        ensures
            (match r {
                Ok(req) => deposit_refusal(self@, token) is None && req.token == token && req.from
                    == caller && req.to == self@.fund_receiver && req.amount == amount,
                Err(e) => Some(e) == deposit_refusal(self@, token),
            }),
    {
        if !self.contains(token) {
            return Err(VaultError::TokenNotWhitelisted);
        }
        Ok(
            DelegatedTransferRequest {
                token,
                from: caller,
                to: self.fund_receiver,
                amount,
            },
        )
    }

    /// Records how a deposit's external transfer ended. A failed call or a
    /// refused transfer leaves every store untouched and reports why. A
    /// completed transfer appends the record under the next sequence
    /// number, steps the counter, and returns that sequence number — even
    /// if the token left the whitelist while the transfer was in flight.
    pub fn deposit_commit(
        &mut self,
        caller: Identity,
        token: Identity,
        amount: Amount,
        destination: String,
        deposit_id: String,
        now_nanos: u64,
        outcome: TransferOutcome,
    ) -> (r: Result<u128, VaultError>)
        requires
            old(self).wf(),
        ensures
            final(self).wf(),
            (match outcome {
                TransferOutcome::Completed => {
                    &&& r == Ok::<u128, VaultError>(old(self)@.deposits.len() as u128)
                    &&& final(self)@ == (VaultView {
                        deposits: old(self)@.deposits.push(
                            deposit_record(
                                old(self)@.deposits.len() as u128,
                                caller,
                                token,
                                amount.value(),
                                now_nanos,
                                destination@,
                                deposit_id@,
                            ),
                        ),
                        ..old(self)@
                    })
                },
                TransferOutcome::CallFailed(m) => r == Err::<u128, VaultError>(
                    VaultError::LedgerCallFailed(m),
                ) && final(self)@ == old(self)@,
                TransferOutcome::Rejected(m) => r == Err::<u128, VaultError>(
                    VaultError::LedgerRejected(m),
                ) && final(self)@ == old(self)@,
            }),
    {
        match outcome {
            TransferOutcome::CallFailed(m) => Err(VaultError::LedgerCallFailed(m)),
            TransferOutcome::Rejected(m) => Err(VaultError::LedgerRejected(m)),
            TransferOutcome::Completed => {
                let _len_bound: usize = self.deposits.len();
                let nonce = self.deposit_counter;
                let info = DepositInfo {
                    nonce,
                    depositor: caller,
                    token,
                    amount,
                    timestamp: (now_nanos / 1_000_000_000) as u128,
                    destination,
                    deposit_id,
                };
                let ghost gi = info;
                self.deposits.push(info);
                proof {
                    assert(inv(old(self)@));
                    assert(self@.withdrawals == old(self)@.withdrawals);
                    assert(self@.used_requests == old(self)@.used_requests);
                    assert(self@.whitelist == old(self)@.whitelist);
                    assert(self.deposits@ == old(self).deposits@.push(gi));
                    assert(self@.deposits =~= old(self)@.deposits.push(dep_view(gi)));
                }
                self.deposit_counter = self.deposit_counter + 1;
                Ok(nonce)
            },
        }
    }

    /// Runs a withdrawal's synchronous checks, in this order: the caller
    /// must be the admin, the amount must be positive, and the request id
    /// must not already be consumed. On success it builds the transfer the
    /// external ledger is to perform: push `amount` of `token` from the
    /// treasury to `recipient`. Nothing is recorded and the request id is
    /// not yet consumed; the ledger's answer goes to `withdraw_commit`.
    pub fn withdraw_prepare(
        &self,
        caller: Identity,
        amount: Amount,
        token: Identity,
        recipient: Identity,
        request_id: &String,
    ) -> (r: Result<TransferRequest, VaultError>)
        requires
            amount.wf(),
        ensures
            (match r {
                Ok(req) => withdraw_refusal(self@, caller, amount.value(), request_id@) is None
                    && req.token == token && req.to == recipient && req.amount == amount,
                Err(e) => Some(e) == withdraw_refusal(self@, caller, amount.value(), request_id@),
            }),
    {
        if caller.id != self.admin.id {
            return Err(VaultError::Unauthorized);
        }
        if amount.is_zero() {
            return Err(VaultError::InvalidAmount);
        }
        if self.used_contains(request_id) {
            return Err(VaultError::DuplicateRequest);
        }
        Ok(TransferRequest { token, to: recipient, amount })
    }

    /// Records how a withdrawal's external transfer ended. A failed call
    /// or a refused transfer leaves every store untouched — in particular
    /// the request id stays unconsumed, so the same id may be retried. A
    /// completed transfer consumes the request id, appends the record
    /// under the next sequence number, steps the counter, and returns that
    /// sequence number.
    pub fn withdraw_commit(
        &mut self,
        amount: Amount,
        token: Identity,
        recipient: Identity,
        request_id: String,
        outcome: TransferOutcome,
    ) -> (r: Result<u128, VaultError>)
        requires
            old(self).wf(),
        ensures
            final(self).wf(),
            (match outcome {
                TransferOutcome::Completed => {
                    &&& r == Ok::<u128, VaultError>(old(self)@.withdrawals.len() as u128)
                    &&& final(self)@.withdrawals == old(self)@.withdrawals.push(
                        withdrawal_record(
                            old(self)@.withdrawals.len() as u128,
                            recipient,
                            token,
                            amount.value(),
                        ),
                    )
                    &&& final(self)@.used_requests == (if old(self)@.used_requests.contains(
                        request_id@,
                    ) {
                        old(self)@.used_requests
                    } else {
                        old(self)@.used_requests.push(request_id@)
                    })
                    &&& final(self)@.used_requests.contains(request_id@)
                    &&& final(self)@ == (VaultView {
                        withdrawals: final(self)@.withdrawals,
                        used_requests: final(self)@.used_requests,
                        ..old(self)@
                    })
                },
                TransferOutcome::CallFailed(m) => r == Err::<u128, VaultError>(
                    VaultError::LedgerCallFailed(m),
                ) && final(self)@ == old(self)@,
                TransferOutcome::Rejected(m) => r == Err::<u128, VaultError>(
                    VaultError::LedgerRejected(m),
                ) && final(self)@ == old(self)@,
            }),
    {
        match outcome {
            TransferOutcome::CallFailed(m) => Err(VaultError::LedgerCallFailed(m)),
            TransferOutcome::Rejected(m) => Err(VaultError::LedgerRejected(m)),
            TransferOutcome::Completed => {
                let _len_bound: usize = self.withdrawals.len();
                let nonce = self.withdraw_counter;
                let ghost rid = request_id@;
                if !self.used_contains(&request_id) {
                    self.used_requests.push(request_id);
                    proof {
                        assert(inv(old(self)@));
                        assert(self@.used_requests =~= old(self)@.used_requests.push(rid));
                    }
                }
                let info = WithdrawInfo {
                    nonce,
                    recipient,
                    token,
                    amount,
                    timestamp: 0,
                };
                let ghost gi = info;
                self.withdrawals.push(info);
                self.withdraw_counter = self.withdraw_counter + 1;
                proof {
                    assert(inv(old(self)@));
                    assert(self@.deposits == old(self)@.deposits);
                    assert(self@.whitelist == old(self)@.whitelist);
                    assert(self@.withdrawals =~= old(self)@.withdrawals.push(wd_view(gi)));
                    if !old(self)@.used_requests.contains(request_id@) {
                        assert(self@.used_requests =~= old(self)@.used_requests.push(request_id@));
                        assert(self@.used_requests[old(self)@.used_requests.len() as int]
                            == request_id@);
                        assert forall|a: int, b: int|
                            0 <= a < b < self@.used_requests.len() implies self@.used_requests[a]
                            != self@.used_requests[b] by {
                            if b < old(self)@.used_requests.len() {
                            } else {
                                assert(self@.used_requests[a] == old(self)@.used_requests[a]);
                            }
                        }
                    } else {
                        assert(self@.used_requests =~= old(self)@.used_requests);
                    }
                }
                Ok(nonce)
            },
        }
    }

    /// A page of the deposit ledger: the records from sequence number
    /// `from_nonce` on, in ledger order, at most `limit` of them. A
    /// `from_nonce` past the end yields the empty page. The page is a
    /// function of the ledger alone, so unchanged state repeats it
    /// verbatim.
    pub fn get_deposit_info_by_nonce(&self, from_nonce: u128, limit: u128) -> (r: Vec<DepositInfo>)
        requires
            self.wf(),
        ensures
            r@.len() == page_len(self@.deposits.len(), from_nonce, limit),
            forall|i: int|
                0 <= i < r@.len() ==> dep_view(#[trigger] r@[i]) == self@.deposits[from_nonce as int
                    + i],
    {
        let mut out: Vec<DepositInfo> = Vec::new();
        let len = self.deposits.len();
        if from_nonce >= len as u128 {
            return out;
        }
        let mut i: usize = from_nonce as usize;
        let mut taken: u128 = 0;
        while i < len && taken < limit
            invariant
                len == self.deposits@.len(),
                from_nonce as int + taken as int == i as int,
                from_nonce < len as u128,
                taken <= limit,
                i <= len,
                out@.len() == taken,
                forall|j: int|
                    0 <= j < out@.len() ==> dep_view(#[trigger] out@[j]) == self@.deposits[
                        from_nonce as int + j],
            decreases len - i,
        {
            out.push(self.deposits[i].clone());
            proof {
                assert(self@.deposits[i as int] == dep_view(self.deposits@[i as int]));
            }
            i = i + 1;
            taken = taken + 1;
        }
        out
    }

    /// How many deposits have been recorded; also the sequence number the
    /// next recorded deposit will take.
    pub fn get_deposit_counter(&self) -> (r: u128)
        requires
            self.wf(),
        ensures
            r as nat == self@.deposits.len(),
    {
        self.deposit_counter
    }

    /// A page of the withdrawal ledger, as `get_deposit_info_by_nonce` is
    /// for deposits.
    pub fn get_withdraw_info_by_nonce(&self, from_nonce: u128, limit: u128) -> (r: Vec<
        WithdrawInfo,
    >)
        requires
            self.wf(),
        ensures
            r@.len() == page_len(self@.withdrawals.len(), from_nonce, limit),
            forall|i: int|
                0 <= i < r@.len() ==> wd_view(#[trigger] r@[i]) == self@.withdrawals[
                    from_nonce as int + i],
    {
        let mut out: Vec<WithdrawInfo> = Vec::new();
        let len = self.withdrawals.len();
        if from_nonce >= len as u128 {
            return out;
        }
        let mut i: usize = from_nonce as usize;
        let mut taken: u128 = 0;
        while i < len && taken < limit
            invariant
                len == self.withdrawals@.len(),
                from_nonce as int + taken as int == i as int,
                from_nonce < len as u128,
                taken <= limit,
                i <= len,
                out@.len() == taken,
                forall|j: int|
                    0 <= j < out@.len() ==> wd_view(#[trigger] out@[j]) == self@.withdrawals[
                        from_nonce as int + j],
            decreases len - i,
        {
            out.push(self.withdrawals[i].clone());
            proof {
                assert(self@.withdrawals[i as int] == wd_view(self.withdrawals@[i as int]));
            }
            i = i + 1;
            taken = taken + 1;
        }
        out
    }

    /// How many withdrawals have been recorded; also the sequence number
    /// the next recorded withdrawal will take.
    pub fn get_withdraw_counter(&self) -> (r: u128)
        requires
            self.wf(),
        ensures
            r as nat == self@.withdrawals.len(),
    {
        self.withdraw_counter
    }
}

/// The record a completed deposit appends, given the state it lands in.
pub open spec fn deposit_record(
    nonce: u128,
    depositor: Identity,
    token: Identity,
    amount: nat,
    now_nanos: u64,
    destination: Seq<char>,
    deposit_id: Seq<char>,
) -> DepositRecord {
    DepositRecord {
        nonce,
        depositor,
        token,
        amount,
        timestamp: (now_nanos / 1_000_000_000) as u128,
        destination,
        deposit_id,
    }
}

/// The record a completed withdrawal appends. Its timestamp is left at
/// zero; only deposits carry the ledger time.
pub open spec fn withdrawal_record(
    nonce: u128,
    recipient: Identity,
    token: Identity,
    amount: nat,
) -> WithdrawalRecord {
    WithdrawalRecord { nonce, recipient, token, amount, timestamp: 0 }
}

/// Law: a token outside the whitelist can never be deposited, whoever asks.
pub proof fn lemma_unlisted_token_refused(v: VaultView, token: Identity)
    requires
        !v.whitelist.contains(token),
    ensures
        deposit_refusal(v, token) == Some(VaultError::TokenNotWhitelisted),
{
}

/// Law: whoever is not the admin is turned away from withdrawing, whatever
/// else the request holds, and learns nothing about amounts or request ids.
pub proof fn lemma_non_admin_refused(
    v: VaultView,
    caller: Identity,
    amount: nat,
    request_id: Seq<char>,
)
    requires
        caller != v.admin,
    ensures
        withdraw_refusal(v, caller, amount, request_id) == Some(VaultError::Unauthorized),
{
}

/// Law: once a state records a request id as consumed — as every completed
/// withdrawal leaves it — any further withdrawal with that id is refused
/// as a duplicate, whatever positive amount the admin asks for.
pub proof fn lemma_consumed_request_refused(v: VaultView, request_id: Seq<char>, amount: nat)
    requires
        amount > 0,
        v.used_requests.contains(request_id),
    ensures
        withdraw_refusal(v, v.admin, amount, request_id) == Some(VaultError::DuplicateRequest),
{
}

/// Law: a request id that no completed withdrawal has consumed — as a
/// failed transfer leaves it — does not block a retry: the synchronous
/// checks admit the admin's request for any positive amount.
pub proof fn lemma_fresh_request_admitted(v: VaultView, request_id: Seq<char>, amount: nat)
    requires
        amount > 0,
        !v.used_requests.contains(request_id),
    ensures
        withdraw_refusal(v, v.admin, amount, request_id) is None,
{
}

/// Law: a page of the deposit ledger is ordered by sequence number —
/// non-decreasing, in fact strictly increasing by position — and never
/// longer than the requested limit.
pub proof fn lemma_deposit_page_ordered(
    v: VaultView,
    from_nonce: u128,
    limit: u128,
    page: Seq<DepositRecord>,
)
    requires
        inv(v),
        page.len() == page_len(v.deposits.len(), from_nonce, limit),
        forall|i: int| 0 <= i < page.len() ==> #[trigger] page[i] == v.deposits[from_nonce as int + i],
    ensures
        page.len() <= limit,
        forall|i: int, j: int| 0 <= i <= j < page.len() ==> page[i].nonce <= page[j].nonce,
{
    assert forall|i: int, j: int|
        0 <= i <= j < page.len() implies page[i].nonce <= page[j].nonce by {
        assert(page[i] == v.deposits[from_nonce as int + i]);
        assert(page[j] == v.deposits[from_nonce as int + j]);
    }
}

/// Law: a page of the withdrawal ledger is ordered and bounded the same
/// way a deposit page is.
pub proof fn lemma_withdrawal_page_ordered(
    v: VaultView,
    from_nonce: u128,
    limit: u128,
    page: Seq<WithdrawalRecord>,
)
    requires
        inv(v),
        page.len() == page_len(v.withdrawals.len(), from_nonce, limit),
        forall|i: int|
            0 <= i < page.len() ==> #[trigger] page[i] == v.withdrawals[from_nonce as int + i],
    ensures
        page.len() <= limit,
        forall|i: int, j: int| 0 <= i <= j < page.len() ==> page[i].nonce <= page[j].nonce,
{
    assert forall|i: int, j: int|
        0 <= i <= j < page.len() implies page[i].nonce <= page[j].nonce by {
        assert(page[i] == v.withdrawals[from_nonce as int + i]);
        assert(page[j] == v.withdrawals[from_nonce as int + j]);
    }
}

} // verus!
