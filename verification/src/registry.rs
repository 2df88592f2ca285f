//! The registry of loaded plugins: registration, the catalogue of their
//! generators and tools, and dispatch of generation requests to the plugin
//! with the requested id.

use vstd::prelude::*;

use crate::mesh::Mesh;
use crate::plugin::{GeneratorInfo, ParamDef, Plugin, PluginError, PluginInfo, ToolDefinition};
use crate::sketch::Sketch;
use crate::text::text_eq;

verus! {

/// Registry that holds all loaded plugins and provides lookup. `P` is the
/// host's plugin type (typically an enum over the plugins it ships). Each
/// plugin is kept with the id it reported when it was registered.
pub struct PluginRegistry<P: Plugin> {
    plugins: Vec<(String, P)>,
}

/// The message for a request naming no registered plugin.
pub open spec fn plugin_not_found_text(plugin_id: Seq<char>) -> Seq<char> {
    "Plugin '"@ + plugin_id + "' not found"@
}

/// Each list of `gs` (one per plugin, in registration order) with its
/// entries paired with the id of the plugin that gave it, for the first `n`
/// plugins.
pub open spec fn tagged<T>(ids: Seq<Seq<char>>, gs: Seq<Vec<T>>, n: nat) -> Seq<(Seq<char>, T)>
    decreases n,
{
    if n == 0 {
        seq![]
    } else {
        tagged(ids, gs, (n - 1) as nat) + gs[n - 1]@.map_values(|g: T| (ids[n - 1], g))
    }
}

/// A list of `(plugin id, entry)` pairs with the ids as character sequences.
pub open spec fn tagged_view<T>(r: Seq<(String, T)>) -> Seq<(Seq<char>, T)> {
    r.map_values(|e: (String, T)| (e.0@, e.1))
}

/// The position of the first id equal to `id`, at or after `k`.
pub open spec fn first_id(ids: Seq<Seq<char>>, id: Seq<char>, k: int) -> Option<int>
    decreases ids.len() - k,
{
    if k < 0 || k >= ids.len() {
        None
    } else if ids[k] == id {
        Some(k)
    } else {
        first_id(ids, id, k + 1)
    }
}

/// The first generator of `gs` with id `id`.
pub open spec fn first_generator(gs: Seq<GeneratorInfo>, id: Seq<char>, k: int) -> Option<GeneratorInfo>
    decreases gs.len() - k,
{
    if k < 0 || k >= gs.len() {
        None
    } else if gs[k].id@ == id {
        Some(gs[k])
    } else {
        first_generator(gs, id, k + 1)
    }
}

impl<P: Plugin> PluginRegistry<P> {
    /// The ids of the registered plugins, in registration order.
    pub closed spec fn ids(&self) -> Seq<Seq<char>> {
        self.plugins@.map_values(|e: (String, P)| e.0@)
    }

    /// The plugin registered `i`-th.
    pub closed spec fn plugin_at(&self, i: int) -> P {
        self.plugins@[i].1
    }

    pub fn new() -> (r: Self)
        ensures
            r.ids() == Seq::<Seq<char>>::empty(),
    {
        let r = PluginRegistry { plugins: Vec::new() };
        assert(r.ids() =~= Seq::<Seq<char>>::empty());
        r
    }

    /// Register a plugin after running its initialisation, under the id it
    /// reports then; a plugin whose initialisation fails is not registered
    /// and its error is returned (see `register_initialized`).
    pub fn register(&mut self, plugin: P) -> (r: Result<(), PluginError>)
        ensures
            r is Ok ==> final(self).ids().len() == old(self).ids().len() + 1
                && final(self).ids().drop_last() == old(self).ids(),
            r is Ok ==> exists|s: &str|
                call_ensures(P::id, (&final(self).plugin_at(old(self).ids().len() as int),), s)
                    && final(self).ids().last() == s@,
            r is Err ==> final(self).ids() == old(self).ids(),
    {
        let mut plugin = plugin;
        let init = plugin.on_init();
        self.register_initialized(plugin, init)
    }

    /// The registration of `plugin` once its initialisation has answered
    /// `init`: an error is passed on and nothing is registered; on success
    /// the plugin is appended under the id its `id()` reports.
    pub fn register_initialized(&mut self, plugin: P, init: Result<(), PluginError>) -> (r: Result<
        (),
        PluginError,
    >)
        ensures
            init matches Err(e) ==> r == Err::<(), PluginError>(e) && final(self).ids() == old(
                self,
            ).ids(),
            init is Ok ==> r is Ok && final(self).ids().len() == old(self).ids().len() + 1
                && final(self).ids().drop_last() == old(self).ids(),
            init is Ok ==> exists|s: &str|
                call_ensures(P::id, (&final(self).plugin_at(old(self).ids().len() as int),), s)
                    && final(self).ids().last() == s@,
            init is Ok ==> forall|k: int|
                0 <= k < old(self).ids().len() ==> final(self).plugin_at(k) == old(self).plugin_at(k),
            init is Ok ==> final(self).plugin_at(old(self).ids().len() as int) == plugin,
    {
        match init {
            Ok(()) => {},
            Err(e) => {
                return Err(e);
            },
        }
        let reported = plugin.id();
        let ghost rep = reported;
        let id = reported.to_owned();
        let ghost before = self.plugins@;
        self.plugins.push((id, plugin));
        assert(self.plugins@.drop_last() =~= before);
        assert(self.ids().drop_last() =~= before.map_values(|e: (String, P)| e.0@)) by {
            assert forall|k: int| 0 <= k < before.len() implies self.ids().drop_last()[k]
                == before[k].0@ by {
                assert(self.plugins@[k] == before[k]);
            }
        }
        assert(self.plugin_at(before.len() as int) == plugin);
        assert(call_ensures(P::id, (&self.plugin_at(before.len() as int),), rep));
        Ok(())
    }

    /// The position of the first registered plugin with id `plugin_id`.
    fn position(&self, plugin_id: &str) -> (r: Option<usize>)
        ensures
            match first_id(self.ids(), plugin_id@, 0) {
                Some(i) => r == Some(i as usize) && 0 <= i < self.plugins@.len(),
                None => r is None,
            },
            first_id(self.ids(), plugin_id@, 0) is None <==> !self.ids().contains(plugin_id@),
            r matches Some(i) ==> i < self.plugins@.len() && i < self.ids().len() && self.ids()[i as int]
                == plugin_id@,
            r matches Some(i) ==> first_id(self.ids(), plugin_id@, 0) == Some(i as int),
    {
        let mut i: usize = 0;
        while i < self.plugins.len()
            invariant
                i <= self.plugins@.len(),
                forall|j: int| 0 <= j < i ==> self.ids()[j] != plugin_id@,
                first_id(self.ids(), plugin_id@, 0) == first_id(self.ids(), plugin_id@, i as int),
            decreases self.plugins@.len() - i,
        {
            if text_eq(self.plugins[i].0.as_str(), plugin_id) {
                assert(self.ids()[i as int] == plugin_id@);
                proof {
                    lemma_first_id_range(self.ids(), plugin_id@, i as int);
                }
                return Some(i);
            }
            i = i + 1;
        }
        proof {
            if self.ids().contains(plugin_id@) {
                let j = choose|j: int| 0 <= j < self.ids().len() && self.ids()[j] == plugin_id@;
            }
        }
        None
    }

    /// Metadata of all registered plugins, in registration order.
    pub fn list_plugins(&self) -> (r: Vec<PluginInfo>)
        ensures
            r@.len() == self.ids().len(),
            forall|i: int|
                0 <= i < r@.len() ==> call_ensures(P::info, (&self.plugin_at(i),), #[trigger] r@[i]),
    {
        let mut r: Vec<PluginInfo> = Vec::new();
        let mut i: usize = 0;
        while i < self.plugins.len()
            invariant
                i <= self.plugins@.len(),
                self.ids().len() == self.plugins@.len(),
                r@.len() == i,
                forall|k: int|
                    0 <= k < r@.len() ==> call_ensures(P::info, (&self.plugin_at(k),), #[trigger] r@[k]),
            decreases self.plugins@.len() - i,
        {
            let info = self.plugins[i].1.info();
            assert(call_ensures(P::info, (&self.plugin_at(i as int),), info));
            r.push(info);
            i = i + 1;
        }
        r
    }

    /// All feature generators of all plugins, each with its plugin's id,
    /// plugin by plugin in registration order: what each plugin's
    /// `generators()` returned, in its order.
    pub fn list_generators(&self) -> (r: Vec<(String, GeneratorInfo)>)
        ensures
            exists|gs: Seq<Vec<GeneratorInfo>>|
                {
                    &&& gs.len() == self.ids().len()
                    &&& forall|i: int|
                        0 <= i < gs.len() ==> call_ensures(
                            P::generators,
                            (&self.plugin_at(i),),
                            #[trigger] gs[i],
                        )
                    &&& tagged_view(r@) == tagged(self.ids(), gs, gs.len())
                },
    {
        let mut r: Vec<(String, GeneratorInfo)> = Vec::new();
        let ghost mut gs: Seq<Vec<GeneratorInfo>> = seq![];
        let mut i: usize = 0;
        while i < self.plugins.len()
            invariant
                i <= self.plugins@.len(),
                self.ids().len() == self.plugins@.len(),
                gs.len() == i,
                forall|k: int|
                    0 <= k < gs.len() ==> call_ensures(
                        P::generators,
                        (&self.plugin_at(k),),
                        #[trigger] gs[k],
                    ),
                tagged_view(r@) == tagged(self.ids(), gs, gs.len()),
            decreases self.plugins@.len() - i,
        {
            let plugin_id = self.plugins[i].0.as_str();
            let mut gens = self.plugins[i].1.generators();
            let ghost all = gens;
            let ghost before = r@;
            let n = gens.len();
            let mut j: usize = 0;
            while gens.len() > 0
                invariant
                    n == all@.len(),
                    i < self.plugins@.len(),
                    self.ids().len() == self.plugins@.len(),
                    plugin_id@ == self.ids()[i as int],
                    j + gens@.len() == all@.len(),
                    gens@ == all@.subrange(j as int, all@.len() as int),
                    tagged_view(r@) == tagged_view(before) + all@.take(j as int).map_values(
                        |g: GeneratorInfo| (self.ids()[i as int], g),
                    ),
                decreases gens@.len(),
            {
                let ghost r0 = r@;
                let g = gens.remove(0);
                assert(g == all@[j as int]);
                r.push((plugin_id.to_owned(), g));
                proof {
                    assert(tagged_view(r@) =~= tagged_view(r0).push((self.ids()[i as int], g)));
                    assert(all@.take(j + 1) =~= all@.take(j as int).push(g));
                    assert(all@.take(j + 1).map_values(|x: GeneratorInfo| (self.ids()[i as int], x)) =~= all@.take(
                        j as int,
                    ).map_values(|x: GeneratorInfo| (self.ids()[i as int], x)).push((self.ids()[i as int], g)));
                    assert(tagged_view(r@) =~= tagged_view(before) + all@.take(j + 1).map_values(
                        |g: GeneratorInfo| (self.ids()[i as int], g),
                    ));
                    assert(gens@ =~= all@.subrange(j + 1, all@.len() as int));
                }
                j = j + 1;
            }
            proof {
                assert(all@.take(j as int) =~= all@);
                let ghost old_gs = gs;
                gs = gs.push(all);
                lemma_tagged_prefix(self.ids(), old_gs, gs, i as nat);
                assert(gs[i as int]@.map_values(|x: GeneratorInfo| (self.ids()[(i + 1) - 1], x)) =~= all@.map_values(
                    |x: GeneratorInfo| (self.ids()[i as int], x),
                ));
                assert(call_ensures(P::generators, (&self.plugin_at(i as int),), gs[i as int]));
            }
            i = i + 1;
        }
        r
    }

    /// All tools of all plugins, each with its plugin's id, plugin by
    /// plugin in registration order: what each plugin's `tools()` returned,
    /// in its order.
    pub fn list_tools(&self) -> (r: Vec<(String, ToolDefinition)>)
        ensures
            exists|ts: Seq<Vec<ToolDefinition>>|
                {
                    &&& ts.len() == self.ids().len()
                    &&& forall|i: int|
                        0 <= i < ts.len() ==> call_ensures(
                            P::tools,
                            (&self.plugin_at(i),),
                            #[trigger] ts[i],
                        )
                    &&& tagged_view(r@) == tagged(self.ids(), ts, ts.len())
                },
    {
        let mut r: Vec<(String, ToolDefinition)> = Vec::new();
        let ghost mut ts: Seq<Vec<ToolDefinition>> = seq![];
        let mut i: usize = 0;
        while i < self.plugins.len()
            invariant
                i <= self.plugins@.len(),
                self.ids().len() == self.plugins@.len(),
                ts.len() == i,
                forall|k: int|
                    0 <= k < ts.len() ==> call_ensures(P::tools, (&self.plugin_at(k),), #[trigger] ts[k]),
                tagged_view(r@) == tagged(self.ids(), ts, ts.len()),
            decreases self.plugins@.len() - i,
        {
            let plugin_id = self.plugins[i].0.as_str();
            let mut tools = self.plugins[i].1.tools();
            let ghost all = tools;
            let ghost before = r@;
            let n = tools.len();
            let mut j: usize = 0;
            while tools.len() > 0
                invariant
                    n == all@.len(),
                    i < self.plugins@.len(),
                    self.ids().len() == self.plugins@.len(),
                    plugin_id@ == self.ids()[i as int],
                    j + tools@.len() == all@.len(),
                    tools@ == all@.subrange(j as int, all@.len() as int),
                    tagged_view(r@) == tagged_view(before) + all@.take(j as int).map_values(
                        |t: ToolDefinition| (self.ids()[i as int], t),
                    ),
                decreases tools@.len(),
            {
                let ghost r0 = r@;
                let t = tools.remove(0);
                assert(t == all@[j as int]);
                r.push((plugin_id.to_owned(), t));
                proof {
                    assert(tagged_view(r@) =~= tagged_view(r0).push((self.ids()[i as int], t)));
                    assert(all@.take(j + 1) =~= all@.take(j as int).push(t));
                    assert(all@.take(j + 1).map_values(|x: ToolDefinition| (self.ids()[i as int], x)) =~= all@.take(
                        j as int,
                    ).map_values(|x: ToolDefinition| (self.ids()[i as int], x)).push((self.ids()[i as int], t)));
                    assert(tagged_view(r@) =~= tagged_view(before) + all@.take(j + 1).map_values(
                        |t: ToolDefinition| (self.ids()[i as int], t),
                    ));
                    assert(tools@ =~= all@.subrange(j + 1, all@.len() as int));
                }
                j = j + 1;
            }
            proof {
                assert(all@.take(j as int) =~= all@);
                let ghost old_ts = ts;
                ts = ts.push(all);
                lemma_tagged_prefix(self.ids(), old_ts, ts, i as nat);
                assert(ts[i as int]@.map_values(|x: ToolDefinition| (self.ids()[(i + 1) - 1], x)) =~= all@.map_values(
                    |x: ToolDefinition| (self.ids()[i as int], x),
                ));
                assert(call_ensures(P::tools, (&self.plugin_at(i as int),), ts[i as int]));
            }
            i = i + 1;
        }
        r
    }

    /// The generator `generator_id` of the first plugin with id
    /// `plugin_id`, as that plugin's `generators()` lists it first; `None`
    /// when there is no such plugin or it lists no such generator.
    pub fn find_generator(&self, plugin_id: &str, generator_id: &str) -> (r: Option<GeneratorInfo>)
        ensures
            match first_id(self.ids(), plugin_id@, 0) {
                None => r is None,
                Some(i) => exists|gs: Vec<GeneratorInfo>|
                    call_ensures(P::generators, (&self.plugin_at(i),), gs) && r == first_generator(
                        gs@,
                        generator_id@,
                        0,
                    ),
            },
            !self.ids().contains(plugin_id@) ==> r is None,
            r matches Some(g) ==> g.id@ == generator_id@,
    {
        match self.position(plugin_id) {
            None => None,
            Some(i) => {
                assert(self.ids().contains(plugin_id@)) by {
                    assert(self.ids()[i as int] == plugin_id@);
                }
                let n = self.plugins.len();
                assert(first_id(self.ids(), plugin_id@, 0) == Some(i as int)) by {
                    match first_id(self.ids(), plugin_id@, 0) {
                        Some(k) => {
                            assert(0 <= k < n);
                            assert(k as usize == i);
                        },
                        None => {},
                    }
                }
                let mut gens = self.plugins[i].1.generators();
                let ghost all = gens;
                assert(call_ensures(P::generators, (&self.plugin_at(i as int),), all));
                let mut j: usize = 0;
                while j < gens.len()
                    invariant
                        gens@ == all@,
                        j <= gens@.len(),
                        first_id(self.ids(), plugin_id@, 0) == Some(i as int),
                        self.ids().contains(plugin_id@),
                        call_ensures(P::generators, (&self.plugin_at(i as int),), all),
                        first_generator(all@, generator_id@, 0) == first_generator(
                            all@,
                            generator_id@,
                            j as int,
                        ),
                    decreases gens@.len() - j,
                {
                    if text_eq(gens[j].id.as_str(), generator_id) {
                        let g = gens.remove(j);
                        assert(g == all@[j as int]);
                        assert(first_generator(all@, generator_id@, j as int) == Some(g));
                        return Some(g);
                    }
                    j = j + 1;
                }
                assert(first_generator(all@, generator_id@, j as int) is None);
                None
            },
        }
    }

    /// Generate a sketch with the first plugin whose id is `plugin_id`.
    pub fn generate_sketch(&self, plugin_id: &str, generator_id: &str, params: &Vec<(String, u64)>) -> (r:
        Result<Sketch, PluginError>)
        ensures
            !self.ids().contains(plugin_id@) ==> (r matches Err(PluginError::Generic(m)) && m@
                == plugin_not_found_text(plugin_id@)),
            self.ids().contains(plugin_id@) ==> call_ensures(
                P::generate_sketch,
                (&self.plugin_at(first_id(self.ids(), plugin_id@, 0)->0), generator_id, params),
                r,
            ),
    {
        match self.position(plugin_id) {
            Some(i) => {
                let r = self.plugins[i].1.generate_sketch(generator_id, params);
                assert(call_ensures(
                    P::generate_sketch,
                    (&self.plugin_at(first_id(self.ids(), plugin_id@, 0)->0), generator_id, params),
                    r,
                ));
                r
            },
            None => Err(PluginError::Generic(not_found_message(plugin_id))),
        }
    }

    /// Generate a solid with the first plugin whose id is `plugin_id`.
    pub fn generate_solid(&self, plugin_id: &str, generator_id: &str, params: &Vec<(String, u64)>) -> (r:
        Result<Mesh, PluginError>)
        ensures
            !self.ids().contains(plugin_id@) ==> (r matches Err(PluginError::Generic(m)) && m@
                == plugin_not_found_text(plugin_id@)),
            self.ids().contains(plugin_id@) ==> call_ensures(
                P::generate_solid,
                (&self.plugin_at(first_id(self.ids(), plugin_id@, 0)->0), generator_id, params),
                r,
            ),
    {
        match self.position(plugin_id) {
            Some(i) => {
                let r = self.plugins[i].1.generate_solid(generator_id, params);
                assert(call_ensures(
                    P::generate_solid,
                    (&self.plugin_at(first_id(self.ids(), plugin_id@, 0)->0), generator_id, params),
                    r,
                ));
                r
            },
            None => Err(PluginError::Generic(not_found_message(plugin_id))),
        }
    }

    /// The parameter definitions of a generator (see `find_generator`);
    /// empty when it is not found.
    pub fn generator_params(&self, plugin_id: &str, generator_id: &str) -> (r: Vec<ParamDef>)
        ensures
            match first_id(self.ids(), plugin_id@, 0) {
                None => r@.len() == 0,
                Some(i) => exists|gs: Vec<GeneratorInfo>|
                    call_ensures(P::generators, (&self.plugin_at(i),), gs) && match first_generator(
                        gs@,
                        generator_id@,
                        0,
                    ) {
                        Some(g) => r@ == g.parameters@,
                        None => r@.len() == 0,
                    },
            },
            !self.ids().contains(plugin_id@) ==> r@.len() == 0,
    {
        let found = self.find_generator(plugin_id, generator_id);
        let r = match found {
            Some(g) => g.parameters,
            None => Vec::new(),
        };
        proof {
            if let Some(i) = first_id(self.ids(), plugin_id@, 0) {
                let gs = choose|gs: Vec<GeneratorInfo>|
                    call_ensures(P::generators, (&self.plugin_at(i),), gs) && found == first_generator(
                        gs@,
                        generator_id@,
                        0,
                    );
                assert(call_ensures(P::generators, (&self.plugin_at(i),), gs));
            }
        }
        r
    }
}

fn not_found_message(plugin_id: &str) -> (m: String)
    ensures
        m@ == plugin_not_found_text(plugin_id@),
{
    let mut m = "Plugin '".to_owned();
    m.append(plugin_id);
    m.append("' not found");
    m
}

/// Adding a plugin's list leaves the lists of the plugins before it as
/// they were.
pub proof fn lemma_tagged_prefix<T>(ids: Seq<Seq<char>>, gs: Seq<Vec<T>>, hs: Seq<Vec<T>>, n: nat)
    requires
        n <= gs.len(),
        n <= hs.len(),
        forall|k: int| 0 <= k < n ==> gs[k] == hs[k],
    ensures
        tagged(ids, gs, n) == tagged(ids, hs, n),
    decreases n,
{
    if n > 0 {
        lemma_tagged_prefix(ids, gs, hs, (n - 1) as nat);
    }
}

proof fn lemma_first_id_range(ids: Seq<Seq<char>>, id: Seq<char>, k: int)
    requires
        0 <= k,
    ensures
        first_id(ids, id, k) matches Some(j) ==> k <= j < ids.len() && ids[j] == id,
    decreases ids.len() - k,
{
    if k < ids.len() && ids[k] != id {
        lemma_first_id_range(ids, id, k + 1);
    }
}

} // verus!
