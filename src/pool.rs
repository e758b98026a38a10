use vstd::prelude::*;

verus! {

#[verifier::external_type_specification]
#[verifier::external_body]
pub struct ExClient(reqwest::Client);

#[verifier::external_type_specification]
#[verifier::external_body]
pub struct ExReqwestError(reqwest::Error);

/// Relies on reqwest's `Client::builder`, `ClientBuilder::danger_accept_invalid_certs`
/// and `ClientBuilder::build`: a new client, which skips certificate checks when asked.
/// The ghost flag records the setting the client was built with.
#[verifier::external_body]
fn build_client(no_check_certificate: bool) -> (r: Result<(reqwest::Client, Ghost<bool>), reqwest::Error>)
    ensures
        r matches Ok((_, g)) ==> g@ == no_check_certificate,
{
    let client = reqwest::Client::builder().danger_accept_invalid_certs(no_check_certificate).build()?;
    Ok((client, Ghost(no_check_certificate)))
}

/// One worker's cache of network clients, one per destination. A pool is
/// owned by a single worker for its whole life and never shared.
///
/// The pool is held as two vectors side by side rather than a map keyed by
/// `String`: vstd's map specifications give no lookup result for such keys
/// that a contract could rely on, so lookups here are a verified search.
pub struct Pool {
    destinations: Vec<String>,
    clients: Vec<reqwest::Client>,
    insecure: Ghost<Seq<bool>>,
}

impl Pool {
    /// The destinations the pool holds a client for, in the order they were added.
    pub closed spec fn view_destinations(&self) -> Seq<Seq<char>> {
        self.destinations@.map_values(|d: String| d@)
    }

    /// The clients the pool holds, slot by slot.
    pub closed spec fn view_clients(&self) -> Seq<reqwest::Client> {
        self.clients@
    }

    /// For each slot, whether its client was built to skip certificate checks.
    pub closed spec fn view_insecure(&self) -> Seq<bool> {
        self.insecure@
    }

    /// One client per destination, and no destination twice.
    pub closed spec fn wf(&self) -> bool {
        &&& self.destinations@.len() == self.clients@.len()
        &&& self.insecure@.len() == self.clients@.len()
        &&& forall|i: int, j: int|
            0 <= i < j < self.destinations@.len() ==> (#[trigger] self.destinations@[i])@
                != (#[trigger] self.destinations@[j])@
    }

    /// An empty pool.
    pub fn new() -> (p: Pool)
        ensures
            p.wf(),
            p.view_destinations().len() == 0,
    {
        Pool { destinations: Vec::new(), clients: Vec::new(), insecure: Ghost(Seq::empty()) }
    }

    /// How many clients the pool holds.
    pub fn len(&self) -> (n: usize)
        requires
            self.wf(),
        ensures
            n == self.view_destinations().len(),
    {
        self.destinations.len()
    }

    /// The slot of the client for `destination`, if the pool holds one.
    pub fn find(&self, destination: &str) -> (r: Option<usize>)
        requires
            self.wf(),
        ensures
            r matches Some(i) ==> i < self.view_destinations().len()
                && self.view_destinations()[i as int] == destination@,
            r is None ==> !self.view_destinations().contains(destination@),
    {
        let target = destination.to_owned();
        let mut i: usize = 0;
        while i < self.destinations.len()
            invariant
                self.wf(),
                target@ == destination@,
                i <= self.destinations@.len(),
                forall|j: int| 0 <= j < i ==> (#[trigger] self.destinations@[j])@ != destination@,
            decreases self.destinations@.len() - i,
        {
            if self.destinations[i] == target {
                return Some(i);
            }
            i = i + 1;
        }
        proof {
            if self.view_destinations().contains(destination@) {
                let k = choose|k: int| 0 <= k < self.view_destinations().len()
                    && self.view_destinations()[k] == destination@;
                assert(self.destinations@[k]@ == destination@);
            }
        }
        None
    }

    /// The slot of the client for `destination`: the one the pool holds, or
    /// a new one, built with certificate checks off when asked and added to
    /// the pool. When building fails, the pool is left as it was.
    pub fn get_or_create(&mut self, destination: &str, no_check_certificate: bool) -> (r: Result<
        usize,
        reqwest::Error,
    >)
        requires
            old(self).wf(),
        ensures
            final(self).wf(),
            old(self).view_destinations().contains(destination@) ==> {
                &&& r matches Ok(i) && old(self).view_destinations()[i as int] == destination@
                &&& final(self).view_destinations() == old(self).view_destinations()
                &&& final(self).view_clients() == old(self).view_clients()
                &&& final(self).view_insecure() == old(self).view_insecure()
            },
            !old(self).view_destinations().contains(destination@) ==> {
                &&& r matches Ok(i) ==> {
                    &&& i == old(self).view_destinations().len()
                    &&& final(self).view_destinations() == old(self).view_destinations().push(destination@)
                    &&& final(self).view_clients().drop_last() == old(self).view_clients()
                    &&& final(self).view_insecure() == old(self).view_insecure().push(no_check_certificate)
                }
                &&& r is Err ==> final(self).view_destinations() == old(self).view_destinations()
                    && final(self).view_clients() == old(self).view_clients()
                    && final(self).view_insecure() == old(self).view_insecure()
            },
    {
        match self.find(destination) {
            Some(i) => Ok(i),
            None => {
                match build_client(no_check_certificate) {
                    Ok((client, built_insecure)) => {
                        let ghost before = *self;
                        let i = self.destinations.len();
                        self.destinations.push(destination.to_owned());
                        self.clients.push(client);
                        self.insecure = Ghost(self.insecure@.push(built_insecure@));
                        assert(self.view_destinations() =~= before.view_destinations().push(destination@));
                        assert(self.clients@.drop_last() =~= before.clients@);
                        assert forall|a: int, b: int|
                            0 <= a < b < self.destinations@.len() implies (#[trigger] self.destinations@[a])@
                            != (#[trigger] self.destinations@[b])@ by {
                            if b == i {
                                assert(before.view_destinations()[a] == before.destinations@[a]@);
                            }
                        }
                        Ok(i)
                    },
                    Err(e) => Err(e),
                }
            },
        }
    }

    /// The client in slot `i`.
    pub fn client(&self, i: usize) -> (c: &reqwest::Client)
        requires
            self.wf(),
            i < self.view_destinations().len(),
        ensures
            *c == self.view_clients()[i as int],
    {
        &self.clients[i]
    }
}

} // verus!
