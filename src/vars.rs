//! Template variables.
use vstd::prelude::*;
use crate::text::{concat, has_prefix, owned, str_eq};
use crate::config::GlobalConfig;
use crate::repo::Repo;

verus! {

/// The value bound to `key` in `s`: that of its first binding.
pub open spec fn lookup(s: Seq<(Seq<char>, Seq<char>)>, key: Seq<char>) -> Option<Seq<char>>
    decreases s.len(),
{
    if s.len() == 0 {
        None
    } else if s[0].0 == key {
        Some(s[0].1)
    } else {
        lookup(s.drop_first(), key)
    }
}

proof fn lemma_lookup_index(s: Seq<(Seq<char>, Seq<char>)>, key: Seq<char>)
    ensures
        lookup(s, key) is None <==> forall|i: int| 0 <= i < s.len() ==> #[trigger] s[i].0 != key,
        forall|i: int|
            0 <= i < s.len() && #[trigger] s[i].0 == key && (forall|j: int| 0 <= j < i ==> s[j].0 != key)
                ==> lookup(s, key) == Some(s[i].1),
    decreases s.len(),
{
    if s.len() > 0 {
        let t = s.drop_first();
        lemma_lookup_index(t, key);
        assert forall|i: int| 1 <= i < s.len() implies #[trigger] s[i] == t[i - 1] by {}
        assert forall|i: int|
            0 <= i < s.len() && #[trigger] s[i].0 == key && (forall|j: int| 0 <= j < i ==> s[j].0 != key)
                implies lookup(s, key) == Some(s[i].1) by {
            if i > 0 {
                assert(s[0].0 != key);
                assert(t[i - 1].0 == key);
                assert forall|j: int| 0 <= j < i - 1 implies t[j].0 != key by {
                    assert(s[j + 1] == t[j]);
                }
            }
        }
        if lookup(t, key) is None && s[0].0 != key {
            assert forall|i: int| 0 <= i < s.len() implies #[trigger] s[i].0 != key by {
                if i > 0 {
                    assert(t[i - 1].0 != key);
                }
            }
        }
    }
}

/// Variable bindings from name to value, in the order first bound.
#[derive(Debug)]
pub struct VarMap {
    entries: Vec<(String, String)>,
}

impl View for VarMap {
    type V = Seq<(Seq<char>, Seq<char>)>;

    closed spec fn view(&self) -> Seq<(Seq<char>, Seq<char>)> {
        self.entries@.map_values(|e: (String, String)| (e.0@, e.1@))
    }
}

impl VarMap {
    pub open spec fn spec_get(&self, key: Seq<char>) -> Option<Seq<char>> {
        lookup(self@, key)
    }

    pub fn new() -> (r: VarMap)
        ensures
            r@ == Seq::<(Seq<char>, Seq<char>)>::empty(),
            forall|k: Seq<char>| r.spec_get(k) is None,
    {
        let r = VarMap { entries: Vec::new() };
        assert(r@ =~= Seq::<(Seq<char>, Seq<char>)>::empty());
        r
    }

    pub fn len(&self) -> (r: usize)
        ensures
            r == self@.len(),
    {
        self.entries.len()
    }

    pub fn is_empty(&self) -> (r: bool)
        ensures
            r == (self@.len() == 0),
    {
        self.entries.len() == 0
    }

    /// The binding at position `i`.
    pub fn entry_at(&self, i: usize) -> (r: (&String, &String))
        requires
            i < self@.len(),
        ensures
            r.0@ == self@[i as int].0,
            r.1@ == self@[i as int].1,
    {
        let e = &self.entries[i];
        (&e.0, &e.1)
    }

    fn position(&self, key: &str) -> (r: Option<usize>)
        ensures
            r matches Some(i) ==> i < self@.len() && self@[i as int].0 == key@ && (forall|j: int|
                0 <= j < i ==> #[trigger] self@[j].0 != key@),
            r is None ==> forall|i: int| 0 <= i < self@.len() ==> #[trigger] self@[i].0 != key@,
    {
        let mut i: usize = 0;
        while i < self.entries.len()
            invariant
                0 <= i <= self@.len(),
                self@.len() == self.entries@.len(),
                forall|k: int| 0 <= k < i ==> #[trigger] self@[k].0 != key@,
            decreases self.entries.len() - i,
        {
            if str_eq(self.entries[i].0.as_str(), key) {
                return Some(i);
            }
            i = i + 1;
        }
        None
    }

    pub fn get(&self, key: &str) -> (r: Option<&String>)
        ensures
            r matches Some(v) ==> self.spec_get(key@) == Some(v@),
            r is None ==> self.spec_get(key@) is None,
    {
        proof {
            lemma_lookup_index(self@, key@);
        }
        match self.position(key) {
            Some(i) => Some(&self.entries[i].1),
            None => None,
        }
    }

    pub fn contains_key(&self, key: &str) -> (r: bool)
        ensures
            r == self.spec_get(key@) is Some,
    {
        proof {
            lemma_lookup_index(self@, key@);
        }
        self.position(key).is_some()
    }

    /// Binds `key` to `value`, replacing an earlier binding in place.
    pub fn insert(&mut self, key: String, value: String)
        ensures
            final(self).spec_get(key@) == Some(value@),
            forall|k: Seq<char>| k != key@ ==> final(self).spec_get(k) == old(self).spec_get(k),
    {
        let ghost old_view = self@;
        let ghost kv = key@;
        let ghost vv = value@;
        proof {
            lemma_lookup_index(old_view, kv);
        }
        match self.position(key.as_str()) {
            Some(i) => {
                self.entries.set(i, (key, value));
                assert(self@ =~= old_view.update(i as int, (kv, vv)));
                proof {
                    assert(self@[i as int].0 == kv);
                    assert forall|j: int| 0 <= j < i implies self@[j].0 != kv by {
                        assert(self@[j] == old_view[j]);
                    }
                    lemma_lookup_index(self@, kv);
                }
            },
            None => {
                self.entries.push((key, value));
                assert(self@ =~= old_view.push((kv, vv)));
                proof {
                    let n = old_view.len() as int;
                    assert(self@[n].0 == kv);
                    assert forall|j: int| 0 <= j < n implies self@[j].0 != kv by {
                        assert(self@[j] == old_view[j]);
                    }
                    lemma_lookup_index(self@, kv);
                }
            },
        }
        proof {
            let n = old_view.len() as int;
            lemma_lookup_index(self@, kv);
            assert forall|k: Seq<char>| k != kv implies lookup(self@, k) == lookup(old_view, k) by {
                lemma_lookup_index(self@, k);
                lemma_lookup_index(old_view, k);
                assert forall|j: int| 0 <= j < n implies #[trigger] self@[j].0 == k <==> old_view[j].0 == k by {
                    if self@[j] != old_view[j] {
                        assert(self@[j].0 == kv && old_view[j].0 == kv);
                    }
                }
                if self@.len() > n {
                    assert(self@[n].0 == kv);
                }
                if lookup(old_view, k) is Some {
                    let m = choose|m: int| 0 <= m < n && #[trigger] old_view[m].0 == k;
                    let first = first_index(old_view, k, m);
                    assert(self@[first] == old_view[first]);
                }
            }
        }
    }
}

impl Clone for VarMap {
    fn clone(&self) -> (r: VarMap)
        ensures
            r@ == self@,
    {
        let mut entries: Vec<(String, String)> = Vec::new();
        let mut i: usize = 0;
        while i < self.entries.len()
            invariant
                0 <= i <= self.entries@.len(),
                entries@.len() == i,
                forall|j: int| 0 <= j < i ==> #[trigger] entries@[j].0@ == self.entries@[j].0@ && entries@[j].1@ == self.entries@[j].1@,
            decreases self.entries.len() - i,
        {
            let e = &self.entries[i];
            entries.push((e.0.clone(), e.1.clone()));
            i = i + 1;
        }
        let r = VarMap { entries };
        assert(r@ =~= self@);
        r
    }
}

/// The value a pass-through variable gives to `key`: where `key` is
/// `env.NAME` for a NAME in `pass` that the environment `env` binds.
pub open spec fn env_value(pass: Seq<Seq<char>>, env: Seq<(Seq<char>, Seq<char>)>, key: Seq<char>) -> Option<Seq<char>> {
    let name = key.subrange(4, key.len() as int);
    if has_prefix(key, "env."@) && pass.contains(name) {
        lookup(env, name)
    } else {
        None
    }
}

/// The value of `key` when `over` is laid over `under`.
pub open spec fn layered(over: Option<Seq<char>>, under: Option<Seq<char>>) -> Option<Seq<char>> {
    match over {
        Some(v) => Some(v),
        None => under,
    }
}

/// Resolves the variables that templates see.
#[derive(Debug)]
pub struct VarResolver {
    vars: VarMap,
    env_passthrough: Vec<String>,
}

/// The built-in variables with their values.
pub open spec fn builtin_bindings(hostname: Seq<char>, user: Seq<char>, home: Seq<char>, os: Seq<char>, key: Seq<char>) -> Option<Seq<char>> {
    if key == "hostname"@ {
        Some(hostname)
    } else if key == "user"@ {
        Some(user)
    } else if key == "home"@ {
        Some(home)
    } else if key == "os"@ {
        Some(os)
    } else {
        None
    }
}

/// Whether `r` lays the repository's variables over the global ones, over
/// the built-in variables with the values given.
pub open spec fn resolves_with_builtins(
    r: VarResolver,
    global_config: GlobalConfig,
    repo: Option<&Repo>,
    hostname: Seq<char>,
    user: Seq<char>,
    home: Seq<char>,
    os: Seq<char>,
) -> bool {
    forall|k: Seq<char>|
        #[trigger] r.spec_get(k) == layered(
            match repo {
                Some(rp) => rp.config.vars.spec_get(k),
                None => None,
            },
            layered(global_config.vars.spec_get(k), builtin_bindings(hostname, user, home, os, k)),
        )
}

/// Relies on hostname::get: the machine's host name, where it is valid
/// Unicode.
#[verifier::external_body]
fn host_name() -> (r: Option<String>) {
    hostname::get().ok().and_then(|h| h.into_string().ok())
}

/// The host name, or `unknown`.
pub fn get_hostname() -> (r: String) {
    match host_name() {
        Some(h) => h,
        None => owned("unknown"),
    }
}

/// The home directory, or `~`.
pub fn get_home_dir() -> (r: String) {
    match crate::paths::home_dir() {
        Some(h) => h,
        None => owned("~"),
    }
}

impl VarResolver {
    /// The value the resolver gives `key`.
    pub closed spec fn spec_get(&self, key: Seq<char>) -> Option<Seq<char>> {
        self.vars.spec_get(key)
    }

    /// The names of the pass-through environment variables.
    pub closed spec fn passthrough_view(&self) -> Seq<Seq<char>> {
        self.env_passthrough@.map_values(|s: String| s@)
    }

    /// Lays the global variables over `builtins`, then the repository's
    /// variables over both.
    pub fn with_builtins(global_config: &GlobalConfig, repo: Option<&Repo>, builtins: VarMap) -> (r: VarResolver)
        ensures
            forall|k: Seq<char>|
                #[trigger] r.spec_get(k) == layered(
                    match repo {
                        Some(rp) => rp.config.vars.spec_get(k),
                        None => None,
                    },
                    layered(global_config.vars.spec_get(k), builtins.spec_get(k)),
                ),
            r.passthrough_view() == global_config.env.pass_through@.map_values(|s: String| s@),
    {
        let mut vars = builtins;
        let ghost b = vars;
        overlay(&mut vars, &global_config.vars);
        let ghost g = vars;
        match repo {
            Some(rp) => overlay(&mut vars, rp.vars()),
            None => {},
        }
        let mut pass: Vec<String> = Vec::new();
        let mut i: usize = 0;
        while i < global_config.env.pass_through.len()
            invariant
                0 <= i <= global_config.env.pass_through@.len(),
                pass@.len() == i,
                forall|j: int| 0 <= j < i ==> #[trigger] pass@[j]@ == global_config.env.pass_through@[j]@,
            decreases global_config.env.pass_through.len() - i,
        {
            pass.push(global_config.env.pass_through[i].clone());
            i = i + 1;
        }
        let r = VarResolver { vars, env_passthrough: pass };
        assert(r.passthrough_view() =~= global_config.env.pass_through@.map_values(|s: String| s@));
        r
    }

    /// The resolver for `repo` under `global_config`: the built-in
    /// variables `hostname`, `user`, `home` and `os`, then the global
    /// variables, then the repository's.
    pub fn new(global_config: &GlobalConfig, repo: Option<&Repo>, user: &str, os: &str) -> (r: VarResolver)
        ensures
            exists|hn: Seq<char>, hm: Seq<char>| #[trigger] resolves_with_builtins(r, *global_config, repo, hn, user@, hm, os@),
            r.passthrough_view() == global_config.env.pass_through@.map_values(|s: String| s@),
    {
        let hostname = get_hostname();
        let home = get_home_dir();
        let mut b = VarMap::new();
        let ghost hv = hostname@;
        let ghost homev = home@;
        b.insert(owned("hostname"), hostname);
        b.insert(owned("user"), owned(user));
        b.insert(owned("home"), home);
        b.insert(owned("os"), owned(os));
        proof {
            reveal_strlit("hostname");
            reveal_strlit("user");
            reveal_strlit("home");
            reveal_strlit("os");
            assert forall|k: Seq<char>| b.spec_get(k) == builtin_bindings(hv, user@, homev, os@, k) by {
                if k != "os"@ && k != "home"@ && k != "user"@ && k != "hostname"@ {
                } else {
                    assert("os"@.len() == 2 && "home"@.len() == 4 && "user"@.len() == 4 && "hostname"@.len() == 8);
                    assert("home"@[0] == 'h' && "user"@[0] == 'u');
                }
            }
        }
        let r = VarResolver::with_builtins(global_config, repo, b);
        assert(resolves_with_builtins(r, *global_config, repo, hv, user@, homev, os@));
        assert(forall|k: Seq<char>|
            #[trigger] r.spec_get(k) == layered(
                match repo {
                    Some(rp) => rp.config.vars.spec_get(k),
                    None => None,
                },
                layered(global_config.vars.spec_get(k), builtin_bindings(hv, user@, homev, os@, k)),
            ));
        r
    }

    /// The names of the environment variables handed to templates.
    pub fn env_passthrough(&self) -> (r: &Vec<String>)
        ensures
            r@.map_values(|s: String| s@) == self.passthrough_view(),
    {
        &self.env_passthrough
    }

    /// The variables templates see: the resolved ones, with `env.NAME` bound
    /// for each pass-through NAME that `env` binds.
    pub fn to_template_data(&self, env: &VarMap) -> (r: VarMap)
        ensures
            forall|k: Seq<char>|
                #[trigger] r.spec_get(k) == layered(env_value(self.passthrough_view(), env@, k), self.spec_get(k)),
    {
        let mut data = self.vars.clone();
        let ghost pv = self.passthrough_view();
        let mut i: usize = 0;
        proof {
            reveal_strlit("env.");
        }
        while i < self.env_passthrough.len()
            invariant
                0 <= i <= self.env_passthrough@.len(),
                pv == self.passthrough_view(),
                "env."@.len() == 4,
                forall|k: Seq<char>|
                    #[trigger] data.spec_get(k) == layered(env_value(pv.subrange(0, i as int), env@, k), self.spec_get(k)),
            decreases self.env_passthrough.len() - i,
        {
            let name = self.env_passthrough[i].as_str();
            let ghost nv = name@;
            assert(pv[i as int] == nv);
            let ghost prev = data;
            match env.get(name) {
                Some(value) => {
                    let key = concat("env.", name);
                    let ghost kv = key@;
                    data.insert(key, value.clone());
                    assert(kv.subrange(4, kv.len() as int) =~= nv);
                    assert(has_prefix(kv, "env."@)) by {
                        assert(kv.subrange(0, 4) =~= "env."@);
                    }
                },
                None => {},
            }
            assert forall|k: Seq<char>|
                #[trigger] data.spec_get(k) == layered(env_value(pv.subrange(0, i + 1), env@, k), self.spec_get(k)) by {
                let n = k.subrange(4, k.len() as int);
                assert(pv.subrange(0, i + 1) =~= pv.subrange(0, i as int).push(nv));
                if has_prefix(k, "env."@) && n == nv {
                    assert(pv.subrange(0, i + 1)[i as int] == nv);
                    assert(pv.subrange(0, i + 1).contains(n));
                    if lookup(env@, nv) is Some {
                        assert(k =~= "env."@ + nv) by {
                            assert(k.subrange(0, 4) == "env."@);
                        }
                    }
                } else {
                    if has_prefix(k, "env."@) {
                        assert(pv.subrange(0, i + 1).contains(n) == pv.subrange(0, i as int).contains(n)) by {
                            if pv.subrange(0, i + 1).contains(n) {
                                let j = choose|j: int| 0 <= j < i + 1 && #[trigger] pv.subrange(0, i + 1)[j] == n;
                                assert(j < i);
                                assert(pv.subrange(0, i as int)[j] == n);
                            }
                        }
                    }
                    if lookup(env@, nv) is Some {
                        assert(k != ("env."@ + nv)) by {
                            if k == "env."@ + nv {
                                assert(k.subrange(0, 4) =~= "env."@);
                                assert(k.subrange(4, k.len() as int) =~= nv);
                            }
                        }
                    }
                }
            }
            i = i + 1;
        }
        assert(pv.subrange(0, pv.len() as int) =~= pv);
        data
    }
}

/// Lays `over` on `base`: each binding of `over` replaces that of `base`.
fn overlay(base: &mut VarMap, over: &VarMap)
    ensures
        forall|k: Seq<char>| #[trigger] final(base).spec_get(k) == layered(over.spec_get(k), old(base).spec_get(k)),
{
    let ghost start = *base;
    let mut i: usize = 0;
    while i < over.len()
        invariant
            0 <= i <= over@.len(),
            forall|k: Seq<char>|
                #[trigger] base.spec_get(k) == layered(lookup(over@.subrange(0, i as int), k), start.spec_get(k)),
        decreases over@.len() - i,
    {
        let (k0, v0) = over.entry_at(i);
        let ghost kv = k0@;
        let ghost vv = v0@;
        let ghost prefix = over@.subrange(0, i as int);
        let ghost next = over@.subrange(0, i + 1);
        assert(next =~= prefix.push((kv, vv)));
        let first = match over.get(k0.as_str()) {
            Some(v) => v.clone(),
            None => v0.clone(),
        };
        proof {
            lemma_lookup_prefix(over@, i + 1, kv);
            lemma_lookup_push(prefix, kv, vv, kv);
            lemma_lookup_index(over@, kv);
            assert(over@[i as int].0 == kv);
        }
        base.insert(k0.clone(), first);
        proof {
            assert forall|k: Seq<char>| #[trigger] base.spec_get(k) == layered(lookup(next, k), start.spec_get(k)) by {
                lemma_lookup_push(prefix, kv, vv, k);
                lemma_lookup_prefix(over@, i as int, k);
                lemma_lookup_prefix(over@, i + 1, k);
            }
        }
        i = i + 1;
    }
    assert(over@.subrange(0, over@.len() as int) =~= over@);
}

proof fn lemma_lookup_prefix(s: Seq<(Seq<char>, Seq<char>)>, n: int, k: Seq<char>)
    requires
        0 <= n <= s.len(),
    ensures
        lookup(s.subrange(0, n), k) is Some ==> lookup(s, k) == lookup(s.subrange(0, n), k),
    decreases n,
{
    if n > 0 {
        let t = s.subrange(0, n);
        assert(t[0] == s[0]);
        if s[0].0 != k {
            assert(t.drop_first() =~= s.drop_first().subrange(0, n - 1));
            lemma_lookup_prefix(s.drop_first(), n - 1, k);
        }
    }
}

proof fn lemma_lookup_push(s: Seq<(Seq<char>, Seq<char>)>, k0: Seq<char>, v0: Seq<char>, k: Seq<char>)
    ensures
        lookup(s.push((k0, v0)), k) == (match lookup(s, k) {
            Some(v) => Some(v),
            None => if k == k0 {
                Some(v0)
            } else {
                None
            },
        }),
    decreases s.len(),
{
    let t = s.push((k0, v0));
    if s.len() > 0 {
        assert(t[0] == s[0]);
        assert(t.drop_first() =~= s.drop_first().push((k0, v0)));
        lemma_lookup_push(s.drop_first(), k0, v0, k);
    } else {
        assert(t[0] == (k0, v0));
        assert(t.drop_first() =~= Seq::<(Seq<char>, Seq<char>)>::empty());
        assert(lookup(t.drop_first(), k) is None);
        assert(lookup(s, k) is None);
    }
}

/// The first position at or before `i` whose key is `key`.
proof fn first_index(s: Seq<(Seq<char>, Seq<char>)>, key: Seq<char>, i: int) -> (r: int)
    requires
        0 <= i < s.len(),
        s[i].0 == key,
    ensures
        0 <= r <= i,
        s[r].0 == key,
        forall|j: int| 0 <= j < r ==> s[j].0 != key,
    decreases i,
{
    if exists|j: int| 0 <= j < i && s[j].0 == key {
        let j = choose|j: int| 0 <= j < i && s[j].0 == key;
        first_index(s, key, j)
    } else {
        i
    }
}

} // verus!
