use crate::domains::{lemma_push_then_contains, DomainList};
use crate::events::Type;
use crate::logger::{Level, LogLine};
use crate::modules::ready::ModuleReady;
use crate::modules::Module;
use crate::options::Options;
use vstd::prelude::*;

verus! {

/// What a session keeps of a registered module: its name and the events it subscribes to.
pub struct ModuleEntry {
    name: String,
    subscribers: Vec<Type>,
}

/// The indices, in increasing order, of the modules among `subs` (the subscriptions of the
/// first `n` registered modules) that subscribe to `event`.
pub open spec fn subscribed(subs: Seq<Seq<Type>>, event: Type, n: nat) -> Seq<usize>
    decreases n,
{
    if n == 0 {
        Seq::<usize>::empty()
    } else {
        let earlier = subscribed(subs, event, (n - 1) as nat);
        if subs[n - 1].contains(event) {
            earlier.push((n - 1) as usize)
        } else {
            earlier
        }
    }
}

/// The message logged when a module is registered in development mode.
pub open spec fn registration_message(name: Seq<char>) -> Seq<char> {
    "Registered module "@ + name
}

/// A scan in progress: its options, its registered modules and the subdomains found so far.
pub struct Session {
    dev_mode: bool,
    options: Options,
    modules: Vec<ModuleEntry>,
    discovered_subdomains: DomainList,
}

impl Session {
    /// The subscriptions of the registered modules, in order of registration.
    pub closed spec fn subscriptions(&self) -> Seq<Seq<Type>> {
        self.modules@.map_values(|m: ModuleEntry| m.subscribers@)
    }

    /// The names of the registered modules, in order of registration.
    pub closed spec fn module_names(&self) -> Seq<Seq<char>> {
        self.modules@.map_values(|m: ModuleEntry| m.name@)
    }

    /// The subdomains discovered so far, in order of discovery.
    pub closed spec fn discovered(&self) -> Seq<Seq<char>> {
        self.discovered_subdomains@
    }

    /// Whether registrations are logged.
    pub closed spec fn spec_dev_mode(&self) -> bool {
        self.dev_mode
    }

    /// The options the session was made with.
    pub closed spec fn spec_options(&self) -> Options {
        self.options
    }

    /// A session with the given options, no module and nothing discovered.
    pub fn new(options: Options) -> (s: Session)
        ensures
            s.subscriptions() == Seq::<Seq<Type>>::empty(),
            s.module_names() == Seq::<Seq<char>>::empty(),
            s.discovered() == Seq::<Seq<char>>::empty(),
            !s.spec_dev_mode(),
            s.spec_options() == options,
    {
        let s = Session {
            dev_mode: false,
            options,
            modules: Vec::new(),
            discovered_subdomains: DomainList::new(),
        };
        assert(s.subscriptions() =~= Seq::<Seq<Type>>::empty());
        assert(s.module_names() =~= Seq::<Seq<char>>::empty());
        s
    }

    /// The options the session was made with.
    pub fn options(&self) -> (o: &Options)
        ensures
            *o == self.spec_options(),
    {
        &self.options
    }

    /// Records `subdomain` as discovered.
    pub fn discover_subdomain(&mut self, subdomain: String)
        ensures
            final(self).discovered() == old(self).discovered().push(subdomain@),
            final(self).subscriptions() == old(self).subscriptions(),
            final(self).module_names() == old(self).module_names(),
            final(self).spec_dev_mode() == old(self).spec_dev_mode(),
            final(self).spec_options() == old(self).spec_options(),
    {
        self.discovered_subdomains.push(subdomain)
    }

    /// Whether `subdomain` has been discovered.
    pub fn has_discovered_subdomain(&self, subdomain: String) -> (b: bool)
        ensures
            b == self.discovered().contains(subdomain@),
    {
        self.discovered_subdomains.contains(&subdomain)
    }

    /// Registers `module` after the modules registered before it. In development mode the
    /// registration is logged: the line to log is returned.
    pub fn register_module<T: Module>(&mut self, module: &T) -> (logged: Option<LogLine>)
        ensures
            final(self).subscriptions() == old(self).subscriptions().push(module.spec_subscribers()),
            final(self).module_names() == old(self).module_names().push(module.spec_name()),
            final(self).discovered() == old(self).discovered(),
            final(self).spec_dev_mode() == old(self).spec_dev_mode(),
            final(self).spec_options() == old(self).spec_options(),
            logged is Some <==> old(self).spec_dev_mode(),
            logged matches Some(l) ==> l.level == Level::Debug && l.source@ == Seq::<char>::empty()
                && l.message@ == registration_message(module.spec_name()),
    {
        let name = module.name();
        let logged = if self.dev_mode {
            let mut message = String::from_str("Registered module ");
            message.append(name.as_str());
            Some(LogLine { level: Level::Debug, source: String::new(), message })
        } else {
            None
        };
        let entry = ModuleEntry { name, subscribers: module.subscribers() };
        self.modules.push(entry);
        assert(self.subscriptions() =~= old(self).subscriptions().push(module.spec_subscribers()));
        assert(self.module_names() =~= old(self).module_names().push(module.spec_name()));
        logged
    }

    /// Registers the modules that every session runs: the readiness announcement.
    pub fn register_default_modules(&mut self) -> (logged: Vec<LogLine>)
        ensures
            final(self).subscriptions() == old(self).subscriptions().push(seq![Type::Ready]),
            final(self).module_names() == old(self).module_names().push("ready"@),
            final(self).discovered() == old(self).discovered(),
            final(self).spec_dev_mode() == old(self).spec_dev_mode(),
            final(self).spec_options() == old(self).spec_options(),
            logged.len() == (if old(self).spec_dev_mode() { 1int } else { 0int }),
            forall|i: int| 0 <= i < logged.len() ==> (#[trigger] logged[i]).message@
                == registration_message("ready"@),
    {
        let mut logged: Vec<LogLine> = Vec::new();
        let ready = ModuleReady::new();
        if let Some(l) = self.register_module(&ready) {
            logged.push(l);
        }
        logged
    }

    /// The modules that run on `event`: the indices, in order of registration, of those
    /// that subscribe to it.
    pub fn dispatch(&self, event: Type) -> (run: Vec<usize>)
        ensures
            run@ == subscribed(self.subscriptions(), event, self.subscriptions().len()),
            self.subscriptions().len() <= usize::MAX,
    {
        let n = self.modules.len();
        let mut run: Vec<usize> = Vec::new();
        let mut i: usize = 0;
        while i < n
            invariant
                n == self.modules@.len(),
                n == self.subscriptions().len(),
                i <= n,
                run@ == subscribed(self.subscriptions(), event, i as nat),
            decreases n - i,
        {
            let subs = &self.modules[i].subscribers;
            assert(self.subscriptions()[i as int] == subs@);
            let mut found = false;
            let mut j: usize = 0;
            while j < subs.len()
                invariant
                    j <= subs@.len(),
                    found <==> subs@.take(j as int).contains(event),
                decreases subs@.len() - j,
            {
                assert(subs@.take(j + 1) =~= subs@.take(j as int).push(subs@[j as int]));
                proof {
                    lemma_push_then_contains(subs@.take(j as int), subs@[j as int], event);
                }
                if subs[j] == event {
                    found = true;
                }
                j = j + 1;
            }
            assert(subs@.take(j as int) =~= subs@);
            if found {
                run.push(i);
            }
            i = i + 1;
        }
        run
    }
}

/// The modules chosen for an event are exactly those that subscribe to it, each once, in
/// order of registration.
pub proof fn lemma_dispatch_exact(subs: Seq<Seq<Type>>, event: Type, n: nat)
    requires
        n <= subs.len(),
        n <= usize::MAX + 1,
    ensures
        forall|i: int| 0 <= i < n ==> (subscribed(subs, event, n).contains(i as usize)
            <==> #[trigger] subs[i].contains(event)),
        forall|k: int| 0 <= k < subscribed(subs, event, n).len() ==> (#[trigger] subscribed(subs, event, n)[k]) < n,
        forall|k1: int, k2: int|
            0 <= k1 < k2 < subscribed(subs, event, n).len() ==> subscribed(subs, event, n)[k1]
                < subscribed(subs, event, n)[k2],
    decreases n,
{
    if n > 0 {
        lemma_dispatch_exact(subs, event, (n - 1) as nat);
        let earlier = subscribed(subs, event, (n - 1) as nat);
        let now = subscribed(subs, event, n);
        assert forall|i: int| 0 <= i < n implies (now.contains(i as usize)
            <==> #[trigger] subs[i].contains(event)) by {
            if subs[n - 1].contains(event) {
                assert(now == earlier.push((n - 1) as usize));
                if i < n - 1 {
                    if now.contains(i as usize) {
                        let k = choose|k: int| 0 <= k < now.len() && now[k] == i as usize;
                        if k < earlier.len() {
                            assert(earlier[k] == i as usize);
                        }
                    }
                    if earlier.contains(i as usize) {
                        let k = choose|k: int| 0 <= k < earlier.len() && earlier[k] == i as usize;
                        assert(now[k] == i as usize);
                    }
                } else {
                    assert(now[now.len() - 1] == i as usize);
                }
            } else {
                if i == n - 1 && now.contains(i as usize) {
                    let k = choose|k: int| 0 <= k < now.len() && now[k] == i as usize;
                    assert(earlier[k] < n - 1);
                }
            }
        }
    }
}

} // verus!
