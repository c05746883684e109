use vstd::prelude::*;

use crate::client::{after_apply, apply_spec, Client, ClientModel};
use crate::error::TxError;
use crate::laws::{consistent, lemma_apply_keeps_consistent, lemma_empty_is_consistent};
use crate::transaction::{Transaction, TransactionData};

verus! {

/// Accounts by client id.
#[verifier::external_body]
pub struct Clients {
    map: hashbrown::HashMap<u16, Client>,
}

/// The entries of a `Clients` map.
pub uninterp spec fn client_accounts(c: Clients) -> Map<u16, Client>;

impl Clients {
    /// Relies on `hashbrown::HashMap::new`: the map starts empty.
    #[verifier::external_body]
    pub(crate) fn new() -> (r: Clients)
        ensures
            client_accounts(r).dom() == Set::<u16>::empty(),
    {
        Clients { map: hashbrown::HashMap::new() }
    }

    /// Relies on `hashbrown::HashMap::remove`: takes out the entry under `id`.
    #[verifier::external_body]
    fn take(&mut self, id: u16) -> (r: Option<Client>)
        ensures
            client_accounts(*final(self)) == client_accounts(*old(self)).remove(id),
            r == (if client_accounts(*old(self)).contains_key(id) {
                Some(client_accounts(*old(self))[id])
            } else {
                None
            }),
    {
        self.map.remove(&id)
    }

    /// Relies on `hashbrown::HashMap::insert`: `id` maps to `client` afterwards,
    /// every other entry stays.
    #[verifier::external_body]
    fn put(&mut self, id: u16, client: Client)
        ensures
            client_accounts(*final(self)) == client_accounts(*old(self)).insert(id, client),
    {
        self.map.insert(id, client);
    }

    /// Relies on `hashbrown::HashMap::get`: the entry under `id`, if any.
    #[verifier::external_body]
    fn get(&self, id: u16) -> (r: Option<&Client>)
        ensures
            r is Some == client_accounts(*self).contains_key(id),
            r matches Some(c) ==> *c == client_accounts(*self)[id],
    {
        self.map.get(&id)
    }

    /// Relies on `hashbrown::HashMap::keys`: each key once, in no set order.
    #[verifier::external_body]
    fn ids(&self) -> (r: Vec<u16>)
        ensures
            r@.no_duplicates(),
            forall|k: u16| r@.contains(k) <==> client_accounts(*self).contains_key(k),
    {
        self.map.keys().copied().collect()
    }
}

/// The account under `id`, or an empty one where there is none yet.
pub open spec fn account_or_empty(accounts: Map<u16, ClientModel>, id: u16) -> ClientModel {
    if accounts.contains_key(id) {
        accounts[id]
    } else {
        ClientModel::empty()
    }
}

/// The accounts after routing one transaction to `client_id`: that account is
/// created if it is new, and the transaction applied to it; no other changes.
pub open spec fn route_spec(
    accounts: Map<u16, ClientModel>,
    client_id: u16,
    tx_id: u32,
    data: TransactionData,
) -> Map<u16, ClientModel> {
    accounts.insert(client_id, after_apply(account_or_empty(accounts, client_id), tx_id, data))
}

/// What routing reports: success, or why the transaction was refused.
pub open spec fn route_result(
    accounts: Map<u16, ClientModel>,
    client_id: u16,
    tx_id: u32,
    data: TransactionData,
) -> Result<(), TxError> {
    match apply_spec(account_or_empty(accounts, client_id), tx_id, data) {
        Ok(_) => Ok(()),
        Err(e) => Err(e),
    }
}

/// The ledger engine: the input's name and every account seen so far.
pub struct State {
    filename: String,
    clients: Clients,
}

impl View for State {
    type V = Map<u16, ClientModel>;

    closed spec fn view(&self) -> Map<u16, ClientModel> {
        let m = client_accounts(self.clients);
        Map::new(|k: u16| m.contains_key(k), |k: u16| m[k]@)
    }
}

impl State {
    /// Every account's total fits in a `u64`, and every account is consistent:
    /// in particular its held funds are the sum of its disputed amounts.
    pub open spec fn wf(&self) -> bool {
        forall|k: u16| #[trigger] self@.contains_key(k) ==> self@[k].wf() && consistent(self@[k])
    }

    pub closed spec fn filename_spec(&self) -> Seq<char> {
        self.filename@
    }

    /// An engine with no accounts, for the input named `filename`.
    pub fn new(filename: &str) -> (r: State)
        ensures
            r@ == Map::<u16, ClientModel>::empty(),
            r.filename_spec() == filename@,
            r.wf(),
    {
        let clients = Clients::new();
        let state = State { filename: filename.to_owned(), clients };
        proof {
            assert(state@ =~= Map::<u16, ClientModel>::empty());
        }
        state
    }

    /// The name of the input.
    pub fn filename(&self) -> (r: &str)
        ensures
            r@ == self.filename_spec(),
    {
        self.filename.as_str()
    }

    /// Routes one transaction to its account, creating the account on first
    /// sight. Other accounts are untouched; a refusal leaves the target
    /// account as it was and is returned.
    pub fn route(&mut self, tx: &Transaction) -> (r: Result<(), TxError>)
        requires
            old(self).wf(),
        ensures
            final(self).wf(),
            final(self)@ == route_spec(old(self)@, tx.client_id, tx.id, tx.transaction_data),
            r == route_result(old(self)@, tx.client_id, tx.id, tx.transaction_data),
    {
        let id = tx.client_id;
        let ghost before = self@;
        let mut client = match self.clients.take(id) {
            Some(c) => c,
            None => Client::empty(),
        };
        assert(client@ == account_or_empty(before, id));
        proof {
            lemma_empty_is_consistent();
            lemma_apply_keeps_consistent(client@, tx.id, tx.transaction_data);
        }
        let r = client.process_tx(tx.id, tx.transaction_data);
        self.clients.put(id, client);
        proof {
            assert(self@ =~= route_spec(before, id, tx.id, tx.transaction_data));
        }
        r
    }

    /// The account under `client_id`, if it has been seen.
    pub fn client(&self, client_id: u16) -> (r: Option<&Client>)
        ensures
            r is Some == self@.contains_key(client_id),
            r matches Some(c) ==> c@ == self@[client_id],
    {
        self.clients.get(client_id)
    }

    /// The ids of all accounts, each once, in no set order.
    pub fn client_ids(&self) -> (r: Vec<u16>)
        ensures
            r@.no_duplicates(),
            forall|k: u16| r@.contains(k) <==> self@.contains_key(k),
    {
        self.clients.ids()
    }
}

} // verus!
