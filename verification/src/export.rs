//! The decisions of an export run: when a source's previous models are
//! reused, how model outcomes are counted and collected, and what manifest
//! the run writes.
use vstd::prelude::*;
use crate::pipeline::{
    insert_entry, models_outside, models_outside_spec, source_views, sources_outside,
    sources_outside_spec, table_insert, table_view, ModelManifest, ModelManifestEntry,
    ModelSourceManifestEntry, SourceEntryView, MODEL_FORMAT_VERSION,
};

verus! {

/// The table after each pair of `pairs` is set in turn; a later pair for a
/// path replaces an earlier one.
pub open spec fn table_extend(t: Seq<(Seq<char>, String)>, pairs: Seq<(String, String)>) -> Seq<(Seq<char>, String)>
    decreases pairs.len(),
{
    if pairs.len() == 0 {
        t
    } else {
        table_insert(table_extend(t, pairs.drop_last()), pairs.last().0@, pairs.last().1)
    }
}

/// Sets each pair of `pairs` in the table, in order.
fn extend_table(t: &mut Vec<(String, String)>, pairs: &Vec<(String, String)>)
    ensures
        table_view(final(t)@) == table_extend(table_view(old(t)@), pairs@),
{
    let ghost start = table_view(t@);
    let mut i: usize = 0;
    while i < pairs.len()
        invariant
            0 <= i <= pairs@.len(),
            table_view(t@) == table_extend(start, pairs@.take(i as int)),
        decreases pairs@.len() - i,
    {
        assert(pairs@.take(i + 1).drop_last() =~= pairs@.take(i as int));
        insert_entry(t, pairs[i].0.clone(), pairs[i].1.clone());
        i = i + 1;
    }
    assert(pairs@.take(pairs@.len() as int) =~= pairs@);
}

/// The paths of a dependency table, in order.
pub open spec fn table_paths(pairs: Seq<(String, String)>) -> Seq<Seq<char>> {
    pairs.map_values(|p: (String, String)| p.0@)
}

fn paths_of(pairs: &Vec<(String, String)>) -> (r: Vec<String>)
    ensures
        r@.map_values(|s: String| s@) == table_paths(pairs@),
{
    let mut r: Vec<String> = Vec::new();
    let mut i: usize = 0;
    while i < pairs.len()
        invariant
            0 <= i <= pairs@.len(),
            r@.map_values(|s: String| s@) =~= table_paths(pairs@.take(i as int)),
        decreases pairs@.len() - i,
    {
        let ghost before = r@;
        r.push(pairs[i].0.clone());
        assert(r@.map_values(|s: String| s@) =~= before.map_values(|s: String| s@).push(pairs@[i as int].0@));
        assert(pairs@.take(i + 1) =~= pairs@.take(i as int).push(pairs@[i as int]));
        assert(table_paths(pairs@.take(i + 1)) =~= table_paths(pairs@.take(i as int)).push(pairs@[i as int].0@));
        i = i + 1;
    }
    assert(pairs@.take(pairs@.len() as int) =~= pairs@);
    r
}

/// The fingerprints taken now of a source's dependencies match those the
/// manifest recorded: there is one for each dependency, in order, and each
/// equals the recorded one. A fingerprint that could not be taken is `None`.
pub open spec fn fingerprints_match(recorded: Seq<(String, String)>, current: Seq<Option<String>>) -> bool {
    &&& current.len() == recorded.len()
    &&& forall|i: int| 0 <= i < current.len() ==> (#[trigger] current[i] matches Some(h) && h@ == recorded[i].1@)
}

/// A source's previous models are reused when the manifest records its
/// dependencies for its current content, every dependency still has its
/// recorded fingerprint, the manifest lists models for it, and their
/// outputs are all still on disk.
pub open spec fn source_reusable(
    recorded: Option<Vec<(String, String)>>,
    current: Seq<Option<String>>,
    model_count: nat,
    outputs_exist: bool,
) -> bool {
    &&& recorded matches Some(r) && fingerprints_match(r@, current)
    &&& model_count > 0
    &&& outputs_exist
}

/// Decides whether a source is reused: given the dependencies the manifest
/// records for it (`source_dependencies_of`), their fingerprints now, its
/// models in the manifest and whether their outputs exist, gives back the
/// dependency table and the models to carry over, or `None`.
pub fn source_reuse(
    recorded: Option<Vec<(String, String)>>,
    current: &Vec<Option<String>>,
    models: Vec<ModelManifestEntry>,
    outputs_exist: bool,
) -> (r: Option<(Vec<(String, String)>, Vec<ModelManifestEntry>)>)
    ensures
        r is Some <==> source_reusable(recorded, current@, models@.len(), outputs_exist),
        r matches Some(p) ==> recorded == Some(p.0) && p.1@ == models@,
        r is Some ==> current@.len() == recorded->Some_0@.len(),
        r is Some ==> forall|i: int| 0 <= i < current@.len() ==> (#[trigger] current@[i]) is Some
            && current@[i]->Some_0@ == recorded->Some_0@[i].1@,
{
    if recorded.is_none() {
        return None;
    }
    let dependencies = recorded.unwrap();
    if current.len() != dependencies.len() {
        return None;
    }
    let mut i: usize = 0;
    while i < current.len()
        invariant
            recorded == Some(dependencies),
            current@.len() == dependencies@.len(),
            0 <= i <= current@.len(),
            forall|k: int| 0 <= k < i ==> (#[trigger] current@[k] matches Some(h) && h@ == dependencies@[k].1@),
        decreases current@.len() - i,
    {
        let same = match &current[i] {
            Some(h) => *h == dependencies[i].1,
            None => false,
        };
        if !same {
            assert(!(current@[i as int] matches Some(h) && h@ == dependencies@[i as int].1@));
            assert(!fingerprints_match(dependencies@, current@));
            return None;
        }
        i = i + 1;
    }
    if models.len() == 0 || !outputs_exist {
        return None;
    }
    Some((dependencies, models))
}

/// A changed dependency blocks reuse: when the fingerprint taken now of any
/// one recorded dependency, the first included, is missing or differs from
/// the recorded one, the source is not reused, whatever its models and
/// outputs.
pub proof fn lemma_changed_dependency_blocks_reuse(
    recorded: Vec<(String, String)>,
    current: Seq<Option<String>>,
    model_count: nat,
    outputs_exist: bool,
    i: int,
)
    requires
        0 <= i < recorded@.len(),
        i < current.len() ==> (current[i] is None || current[i]->Some_0@ != recorded@[i].1@),
    ensures
        !source_reusable(Some(recorded), current, model_count, outputs_exist),
{
    if source_reusable(Some(recorded), current, model_count, outputs_exist) {
        assert(current[i] matches Some(h) && h@ == recorded@[i].1@);
    }
}

/// Reuse needs every recorded dependency unchanged: a source is reused only
/// when there is a fingerprint now for each recorded dependency, in order,
/// each equal to the recorded one, the manifest lists models for it, and
/// their outputs exist; and then it is.
pub proof fn lemma_reuse_exactly_when_unchanged(
    recorded: Vec<(String, String)>,
    current: Seq<Option<String>>,
    model_count: nat,
    outputs_exist: bool,
)
    ensures
        source_reusable(Some(recorded), current, model_count, outputs_exist) <==> (
            current.len() == recorded@.len()
            && (forall|i: int| 0 <= i < current.len() ==> (#[trigger] current[i]) is Some
                && current[i]->Some_0@ == recorded@[i].1@)
            && model_count > 0 && outputs_exist),
{
}

/// Whether a model whose fingerprint names existing outputs is counted as
/// cached rather than written again: only when the run does not recompile
/// and both its glTF and its buffer exist.
pub fn model_output_reusable(recompile: bool, output_exists: bool, buffer_exists: bool) -> (r: bool)
    ensures
        r == (!recompile && output_exists && buffer_exists),
{
    !recompile && output_exists && buffer_exists
}

/// What an export run has collected so far, as mathematical values.
pub struct ExportStateView {
    pub exported: nat,
    pub cached: nat,
    /// Each failure's source and error.
    pub failed: Seq<(Seq<char>, Seq<char>)>,
    /// The models the run reports, in order.
    pub models: Seq<ModelManifestEntry>,
    /// The models the manifest will list.
    pub manifest_models: Seq<ModelManifestEntry>,
    pub sources: Seq<SourceEntryView>,
    pub dependencies: Seq<(Seq<char>, String)>,
}

/// The source entry a run records for a source whose dependency table is
/// `deps`.
pub open spec fn source_entry_view(source: Seq<char>, hash: Seq<char>, deps: Seq<(String, String)>) -> SourceEntryView {
    SourceEntryView { source, hash, dependencies: table_paths(deps) }
}

impl ExportStateView {
    /// A run's start: nothing counted or reported; from the previous
    /// manifest, when it is reusable, the models and sources of the sources
    /// this run does not export and its dependency table.
    pub open spec fn start(previous: Option<ModelManifest>, current: Seq<String>) -> ExportStateView {
        ExportStateView {
            exported: 0,
            cached: 0,
            failed: Seq::empty(),
            models: Seq::empty(),
            manifest_models: match previous {
                Some(m) => models_outside_spec(m.models@, current),
                None => Seq::empty(),
            },
            sources: match previous {
                Some(m) => sources_outside_spec(source_views(m.sources@), current),
                None => Seq::empty(),
            },
            dependencies: match previous {
                Some(m) => table_extend(Seq::empty(), m.dependencies@),
                None => Seq::empty(),
            },
        }
    }

    /// A reused source: its entry and dependencies are recorded again and
    /// its models are reported and listed, each counted as cached.
    pub open spec fn reused(
        self,
        source: Seq<char>,
        hash: Seq<char>,
        deps: Seq<(String, String)>,
        models: Seq<ModelManifestEntry>,
    ) -> ExportStateView {
        ExportStateView {
            cached: self.cached + models.len(),
            models: self.models + models,
            manifest_models: self.manifest_models + models,
            sources: self.sources.push(source_entry_view(source, hash, deps)),
            dependencies: table_extend(self.dependencies, deps),
            ..self
        }
    }

    /// A parsed source: its entry and dependencies are recorded when its
    /// content hash is known.
    pub open spec fn parsed(self, source: Seq<char>, hash: Option<Seq<char>>, deps: Seq<(String, String)>) -> ExportStateView {
        match hash {
            Some(h) => ExportStateView {
                sources: self.sources.push(source_entry_view(source, h, deps)),
                dependencies: table_extend(self.dependencies, deps),
                ..self
            },
            None => self,
        }
    }

    /// A failure, recorded with its source and error.
    pub open spec fn failed_with(self, source: Seq<char>, error: Seq<char>) -> ExportStateView {
        ExportStateView { failed: self.failed.push((source, error)), ..self }
    }

    /// A model written (`exported`) or found cached: reported, listed and
    /// counted.
    pub open spec fn modeled(self, entry: ModelManifestEntry, exported: bool) -> ExportStateView {
        ExportStateView {
            exported: if exported { self.exported + 1 } else { self.exported },
            cached: if exported { self.cached } else { self.cached + 1 },
            models: self.models.push(entry),
            manifest_models: self.manifest_models.push(entry),
            ..self
        }
    }
}

/// What an export run collects: the counts, the failures, the models it
/// reports, and the manifest's models, sources and dependency table.
pub struct ExportState {
    exported: usize,
    cached: usize,
    failed: Vec<(String, String)>,
    models: Vec<ModelManifestEntry>,
    manifest_models: Vec<ModelManifestEntry>,
    sources: Vec<ModelSourceManifestEntry>,
    dependencies: Vec<(String, String)>,
}

impl View for ExportState {
    type V = ExportStateView;

    closed spec fn view(&self) -> ExportStateView {
        ExportStateView {
            exported: self.exported as nat,
            cached: self.cached as nat,
            failed: self.failed@.map_values(|f: (String, String)| (f.0@, f.1@)),
            models: self.models@,
            manifest_models: self.manifest_models@,
            sources: source_views(self.sources@),
            dependencies: table_view(self.dependencies@),
        }
    }
}

/// The end of a run: the counts, the failures as source and error, and the
/// models it reports.
#[derive(Debug)]
pub struct ExportSummary {
    pub exported: usize,
    pub cached: usize,
    pub failed: Vec<(String, String)>,
    pub models: Vec<ModelManifestEntry>,
}

fn duplicate_models(models: &Vec<ModelManifestEntry>) -> (r: Vec<ModelManifestEntry>)
    ensures
        r@ == models@,
{
    let mut r: Vec<ModelManifestEntry> = Vec::new();
    let mut i: usize = 0;
    while i < models.len()
        invariant
            0 <= i <= models@.len(),
            r@ =~= models@.take(i as int),
        decreases models@.len() - i,
    {
        r.push(models[i].duplicate());
        i = i + 1;
    }
    r
}

fn append_models(to: &mut Vec<ModelManifestEntry>, models: &Vec<ModelManifestEntry>)
    ensures
        final(to)@ == old(to)@ + models@,
{
    let ghost start = to@;
    let mut i: usize = 0;
    while i < models.len()
        invariant
            0 <= i <= models@.len(),
            to@ =~= start + models@.take(i as int),
        decreases models@.len() - i,
    {
        to.push(models[i].duplicate());
        i = i + 1;
    }
    assert(models@.take(models@.len() as int) =~= models@);
}

impl ExportState {
    /// Every model the run reports is counted once, as exported or cached.
    pub closed spec fn wf(&self) -> bool {
        self.exported + self.cached == self.models@.len()
    }

    /// Starts a run from the previous manifest, when it is reusable, and the
    /// cache paths of the sources this run exports.
    pub fn start(previous: &Option<ModelManifest>, current_sources: &Vec<String>) -> (r: ExportState)
        ensures
            r.wf(),
            r@ == ExportStateView::start(*previous, current_sources@),
    {
        match previous {
            None => {
                let r = ExportState {
                    exported: 0,
                    cached: 0,
                    failed: Vec::new(),
                    models: Vec::new(),
                    manifest_models: Vec::new(),
                    sources: Vec::new(),
                    dependencies: Vec::new(),
                };
                assert(r@.failed =~= Seq::<(Seq<char>, Seq<char>)>::empty());
                assert(r@.sources =~= Seq::<SourceEntryView>::empty());
                assert(r@.dependencies =~= Seq::<(Seq<char>, String)>::empty());
                r
            },
            Some(m) => {
                let mut dependencies: Vec<(String, String)> = Vec::new();
                assert(table_view(dependencies@) =~= Seq::<(Seq<char>, String)>::empty());
                extend_table(&mut dependencies, &m.dependencies);
                let r = ExportState {
                    exported: 0,
                    cached: 0,
                    failed: Vec::new(),
                    models: Vec::new(),
                    manifest_models: models_outside(&m.models, current_sources),
                    sources: sources_outside(&m.sources, current_sources),
                    dependencies,
                };
                assert(r@.failed =~= Seq::<(Seq<char>, Seq<char>)>::empty());
                r
            },
        }
    }

    /// Records a reused source and carries its models over as cached.
    pub fn record_reused_source(
        &mut self,
        source: String,
        hash: String,
        dependencies: Vec<(String, String)>,
        models: Vec<ModelManifestEntry>,
    )
        requires
            old(self).wf(),
        ensures
            final(self).wf(),
            final(self)@ == old(self)@.reused(source@, hash@, dependencies@, models@),
    {
        let ghost before = self@;
        let paths = paths_of(&dependencies);
        let entry = ModelSourceManifestEntry { source, hash, dependencies: paths };
        assert(entry@ == source_entry_view(entry.source@, entry.hash@, dependencies@));
        let ghost sources_before = self.sources@;
        self.sources.push(entry);
        assert(source_views(self.sources@) =~= source_views(sources_before).push(entry@));
        extend_table(&mut self.dependencies, &dependencies);
        append_models(&mut self.manifest_models, &models);
        append_models(&mut self.models, &models);
        self.cached = self.models.len() - self.exported;
    }

    /// Records a source that was parsed again: its entry and dependency
    /// fingerprints, when its content hash is known.
    pub fn record_parsed_source(&mut self, source: String, hash: Option<String>, dependencies: Vec<(String, String)>)
        requires
            old(self).wf(),
        ensures
            final(self).wf(),
            final(self)@ == old(self)@.parsed(
                source@,
                match hash {
                    Some(h) => Some(h@),
                    None => None,
                },
                dependencies@,
            ),
    {
        if let Some(h) = hash {
            let paths = paths_of(&dependencies);
            let entry = ModelSourceManifestEntry { source, hash: h, dependencies: paths };
            let ghost sources_before = self.sources@;
            self.sources.push(entry);
            assert(source_views(self.sources@) =~= source_views(sources_before).push(entry@));
            extend_table(&mut self.dependencies, &dependencies);
        }
    }

    /// Records a failure with its source and error.
    pub fn record_failure(&mut self, source: String, error: String)
        requires
            old(self).wf(),
        ensures
            final(self).wf(),
            final(self)@ == old(self)@.failed_with(source@, error@),
    {
        let ghost before = self.failed@;
        self.failed.push((source, error));
        assert(self@.failed =~= before.map_values(|f: (String, String)| (f.0@, f.1@)).push((source@, error@)));
    }

    /// Records a model that was written (`exported`) or found cached.
    pub fn record_model(&mut self, entry: ModelManifestEntry, exported: bool)
        requires
            old(self).wf(),
        ensures
            final(self).wf(),
            final(self)@ == old(self)@.modeled(entry, exported),
    {
        self.manifest_models.push(entry.duplicate());
        self.models.push(entry);
        if exported {
            self.exported = self.models.len() - self.cached;
        } else {
            self.cached = self.models.len() - self.exported;
        }
    }

    /// Ends the run: the manifest it writes, with the current format
    /// version and the run's settings, and its summary.
    pub fn finish(self, studs_per_tile_bits: u32, includes_materials: bool) -> (r: (ModelManifest, ExportSummary))
        requires
            self.wf(),
        ensures
            r.0.version == MODEL_FORMAT_VERSION,
            r.0.studs_per_tile_bits == studs_per_tile_bits,
            r.0.includes_materials == includes_materials,
            table_view(r.0.dependencies@) == self@.dependencies,
            source_views(r.0.sources@) == self@.sources,
            r.0.models@ == self@.manifest_models,
            r.1.exported == self@.exported,
            r.1.cached == self@.cached,
            r.1.failed@.map_values(|f: (String, String)| (f.0@, f.1@)) == self@.failed,
            r.1.models@ == self@.models,
    {
        let manifest = ModelManifest {
            version: MODEL_FORMAT_VERSION,
            studs_per_tile_bits,
            includes_materials,
            dependencies: self.dependencies,
            sources: self.sources,
            models: self.manifest_models,
        };
        let summary = ExportSummary {
            exported: self.exported,
            cached: self.cached,
            failed: self.failed,
            models: self.models,
        };
        (manifest, summary)
    }
}

/// Whether a model's GLB is counted as cached rather than packed again: only
/// when the run does not recompile and the GLB exists.
pub fn glb_output_reusable(recompile: bool, glb_exists: bool) -> (r: bool)
    ensures
        r == (!recompile && glb_exists),
{
    !recompile && glb_exists
}

/// The counts and failures of a run over a list of items, as mathematical
/// values.
pub struct RunTallyView {
    pub done: nat,
    pub cached: nat,
    pub failed: Seq<(Seq<char>, Seq<char>)>,
}

/// The counts of the items a run processed (`done`) or found cached, and
/// each failure's item and error.
pub struct RunTally {
    done: usize,
    cached: usize,
    failed: Vec<(String, String)>,
}

impl View for RunTally {
    type V = RunTallyView;

    closed spec fn view(&self) -> RunTallyView {
        RunTallyView {
            done: self.done as nat,
            cached: self.cached as nat,
            failed: self.failed@.map_values(|f: (String, String)| (f.0@, f.1@)),
        }
    }
}

impl RunTally {
    /// A tally with nothing counted.
    pub fn new() -> (r: RunTally)
        ensures
            r@.done == 0,
            r@.cached == 0,
            r@.failed.len() == 0,
    {
        RunTally { done: 0, cached: 0, failed: Vec::new() }
    }

    /// Whether one more item can be counted.
    pub fn can_count(&self) -> (r: bool)
        ensures
            r == (self@.done + self@.cached < usize::MAX),
    {
        self.cached < usize::MAX - self.done
    }

    /// Counts an item that was processed (`done`) or found cached.
    pub fn record(&mut self, done: bool)
        requires
            old(self)@.done + old(self)@.cached < usize::MAX,
        ensures
            final(self)@ == (RunTallyView {
                done: if done { old(self)@.done + 1 } else { old(self)@.done },
                cached: if done { old(self)@.cached } else { old(self)@.cached + 1 },
                failed: old(self)@.failed,
            }),
    {
        if done {
            self.done = self.done + 1;
        } else {
            self.cached = self.cached + 1;
        }
    }

    /// Records a failure with its item and error.
    pub fn record_failure(&mut self, item: String, error: String)
        ensures
            final(self)@ == (RunTallyView { failed: old(self)@.failed.push((item@, error@)), ..old(self)@ }),
    {
        let ghost before = self.failed@;
        self.failed.push((item, error));
        assert(self@.failed =~= before.map_values(|f: (String, String)| (f.0@, f.1@)).push((item@, error@)));
    }

    /// The counts of processed and cached items, and the failures.
    pub fn finish(self) -> (r: (usize, usize, Vec<(String, String)>))
        ensures
            r.0 == self@.done,
            r.1 == self@.cached,
            r.2@.map_values(|f: (String, String)| (f.0@, f.1@)) == self@.failed,
    {
        (self.done, self.cached, self.failed)
    }
}

/// The state after each reused source of `reuses`, given as source, hash,
/// dependency table and models, is recorded in turn.
pub open spec fn reuse_all(
    s: ExportStateView,
    reuses: Seq<(Seq<char>, Seq<char>, Seq<(String, String)>, Seq<ModelManifestEntry>)>,
) -> ExportStateView
    decreases reuses.len(),
{
    if reuses.len() == 0 {
        s
    } else {
        let last = reuses.last();
        reuse_all(s, reuses.drop_last()).reused(last.0, last.1, last.2, last.3)
    }
}

/// The models of the reused sources, one source after another.
pub open spec fn reused_models(
    reuses: Seq<(Seq<char>, Seq<char>, Seq<(String, String)>, Seq<ModelManifestEntry>)>,
) -> Seq<ModelManifestEntry>
    decreases reuses.len(),
{
    if reuses.len() == 0 {
        Seq::empty()
    } else {
        reused_models(reuses.drop_last()) + reuses.last().3
    }
}

/// A run in which every source is reused writes no model and fails none:
/// it reports exactly the reused sources' models, in order, and counts
/// every one of them as cached.
pub proof fn lemma_reused_run_is_all_cached(
    previous: Option<ModelManifest>,
    current: Seq<String>,
    reuses: Seq<(Seq<char>, Seq<char>, Seq<(String, String)>, Seq<ModelManifestEntry>)>,
)
    ensures
        ({
            let end = reuse_all(ExportStateView::start(previous, current), reuses);
            &&& end.exported == 0
            &&& end.failed.len() == 0
            &&& end.models == reused_models(reuses)
            &&& end.cached == end.models.len()
        }),
    decreases reuses.len(),
{
    if reuses.len() > 0 {
        lemma_reused_run_is_all_cached(previous, current, reuses.drop_last());
    } else {
        assert(reused_models(reuses) =~= Seq::<ModelManifestEntry>::empty());
    }
}

} // verus!
