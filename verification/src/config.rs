//! The configuration model and the functions that read it.
//!
//! Configuration is loaded and schema-checked by an external collaborator;
//! the core receives it as this immutable structure and only resolves
//! references inside it: which input a file belongs to, which preset and
//! output an input names, and where the output file of an input file goes.
//!
//! The `outputs` and `presets` mappings are kept as ordered association
//! lists; a lookup returns the first entry with the wanted name.

use vstd::prelude::*;
use crate::errors::JobError;
use crate::paths::{
    extension, extension_matches, file_stem, is_path_prefix, join_path, lower_of, render_template,
    spec_extension, spec_file_stem, spec_is_path_prefix, spec_join_path, spec_render,
};

verus! {

/// One watched input root: files under `path` whose extension is in
/// `extensions` are encoded with the preset and output named here.
#[derive(Debug, Clone)]
pub struct InputConfig {
    /// The root directory, as a canonical path string.
    pub path: String,
    /// Extensions that belong to this input, compared case-insensitively.
    pub extensions: Vec<String>,
    /// Name of the preset to encode with.
    pub preset: String,
    /// Name of the output destination.
    pub output: String,
}

/// A destination for encoded files.
#[derive(Debug, Clone)]
pub struct OutputConfig {
    /// The destination directory.
    pub path: String,
    /// Filename template; the placeholder is replaced by the input's stem.
    pub filename_template: String,
    /// Container extension of the output file.
    pub container: String,
}

/// A named bundle of encode parameters.
#[derive(Debug, Clone)]
pub struct PresetConfig {
    pub video_codec: Option<String>,
    pub pixel_format: Option<String>,
    pub audio_codec: Option<String>,
    pub video_bitrate: Option<String>,
    pub audio_bitrate: Option<String>,
    pub scale: Option<String>,
    /// Free-form flag/value pairs, passed through verbatim in this order.
    pub extra_options: Vec<(String, String)>,
}

/// The whole immutable configuration.
#[derive(Debug, Clone)]
pub struct Config {
    pub inputs: Vec<InputConfig>,
    pub outputs: Vec<(String, OutputConfig)>,
    pub presets: Vec<(String, PresetConfig)>,
    /// Global ceiling on concurrently running external processes.
    pub max_parallel_jobs: Option<usize>,
}

/// Whether the association list holds an entry named `k`.
pub open spec fn assoc_contains<T>(m: Seq<(String, T)>, k: Seq<char>) -> bool {
    exists|i: int| 0 <= i < m.len() && #[trigger] m[i].0@ == k
}

/// The value of the first entry named `k`, if any.
pub open spec fn assoc_lookup<T>(m: Seq<(String, T)>, k: Seq<char>) -> Option<T>
    decreases m.len(),
{
    if m.len() == 0 {
        None
    } else if m[0].0@ == k {
        Some(m[0].1)
    } else {
        assoc_lookup(m.drop_first(), k)
    }
}

pub proof fn lemma_assoc_lookup_contains<T>(m: Seq<(String, T)>, k: Seq<char>)
    ensures
        assoc_lookup(m, k) is Some <==> assoc_contains(m, k),
    decreases m.len(),
{
    if m.len() > 0 {
        if m[0].0@ == k {
        } else {
            lemma_assoc_lookup_contains(m.drop_first(), k);
            assert forall|i: int| 0 <= i < m.len() && #[trigger] m[i].0@ == k implies
                assoc_contains(m.drop_first(), k) by {
                assert(m.drop_first()[i - 1].0@ == k);
            }
            assert forall|i: int|
                0 <= i < m.drop_first().len() && #[trigger] m.drop_first()[i].0@ == k implies
                assoc_contains(m, k) by {
                assert(m[i + 1].0@ == k);
            }
        }
    }
}

/// Looks the name up in an association list, returning the first entry.
fn assoc_get<'a, T>(m: &'a Vec<(String, T)>, k: &String) -> (r: Option<&'a T>)
    ensures
        match r {
            Some(v) => assoc_lookup(m@, k@) == Some(*v),
            None => assoc_lookup(m@, k@) is None,
        },
{
    let mut i: usize = 0;
    proof {
        assert(m@.skip(0) =~= m@);
    }
    while i < m.len()
        invariant
            i <= m@.len(),
            assoc_lookup(m@, k@) == assoc_lookup(m@.skip(i as int), k@),
        decreases m@.len() - i,
    {
        proof {
            assert(m@.skip(i as int)[0] == m@[i as int]);
            assert(m@.skip(i as int).drop_first() =~= m@.skip(i as int + 1));
        }
        if m[i].0.eq(k) {
            return Some(&m[i].1);
        }
        i = i + 1;
    }
    None
}

impl Config {
    /// The preset an input refers to, or which reference dangles.
    pub fn get_preset<'a>(&'a self, preset_name: &String) -> (r: Result<
        &'a PresetConfig,
        JobError,
    >)
        ensures
            match r {
                Ok(p) => assoc_lookup(self.presets@, preset_name@) == Some(*p),
                Err(e) => assoc_lookup(self.presets@, preset_name@) is None && e
                    == JobError::UnknownPreset(*preset_name),
            },
    {
        match assoc_get(&self.presets, preset_name) {
            Some(p) => Ok(p),
            None => Err(JobError::UnknownPreset(preset_name.clone())),
        }
    }

    /// The output destination an input refers to, or which reference dangles.
    pub fn get_output<'a>(&'a self, output_name: &String) -> (r: Result<
        &'a OutputConfig,
        JobError,
    >)
        ensures
            match r {
                Ok(o) => assoc_lookup(self.outputs@, output_name@) == Some(*o),
                Err(e) => assoc_lookup(self.outputs@, output_name@) is None && e
                    == JobError::UnknownOutput(*output_name),
            },
    {
        match assoc_get(&self.outputs, output_name) {
            Some(o) => Ok(o),
            None => Err(JobError::UnknownOutput(output_name.clone())),
        }
    }
}

/// Whether every name an input refers to is defined.
pub open spec fn spec_input_refs_valid(c: Config, i: int) -> bool {
    &&& assoc_contains(c.outputs@, c.inputs@[i].output@)
    &&& assoc_contains(c.presets@, c.inputs@[i].preset@)
}

/// Whether the configuration holds no dangling preset or output reference.
pub open spec fn spec_config_refs_valid(c: Config) -> bool {
    forall|i: int| 0 <= i < c.inputs@.len() ==> #[trigger] spec_input_refs_valid(c, i)
}

/// The first dangling reference, scanning the inputs in order and checking
/// each input's output name before its preset name.
pub open spec fn spec_validate_from(c: Config, i: int) -> Result<(), JobError>
    decreases c.inputs@.len() - i,
{
    if i < 0 || i >= c.inputs@.len() {
        Ok(())
    } else if !assoc_contains(c.outputs@, c.inputs@[i].output@) {
        Err(JobError::UnknownOutput(c.inputs@[i].output))
    } else if !assoc_contains(c.presets@, c.inputs@[i].preset@) {
        Err(JobError::UnknownPreset(c.inputs@[i].preset))
    } else {
        spec_validate_from(c, i + 1)
    }
}

/// Checks every input's preset and output reference, reporting the first
/// dangling one. Directory existence is the application's concern; only
/// dangling names are rejected here.
pub fn validate_config(config: &Config) -> (r: Result<(), JobError>)
    ensures
        r == spec_validate_from(*config, 0),
        r is Ok <==> spec_config_refs_valid(*config),
{
    let mut i: usize = 0;
    while i < config.inputs.len()
        invariant
            i <= config.inputs@.len(),
            spec_validate_from(*config, 0) == spec_validate_from(*config, i as int),
            forall|j: int| 0 <= j < i ==> #[trigger] spec_input_refs_valid(*config, j),
        decreases config.inputs@.len() - i,
    {
        let input = &config.inputs[i];
        proof {
            lemma_assoc_lookup_contains(config.outputs@, input.output@);
            lemma_assoc_lookup_contains(config.presets@, input.preset@);
        }
        if let Err(e) = config.get_output(&input.output) {
            proof {
                assert(!spec_input_refs_valid(*config, i as int));
            }
            return Err(e);
        }
        if let Err(e) = config.get_preset(&input.preset) {
            proof {
                assert(!spec_input_refs_valid(*config, i as int));
            }
            return Err(e);
        }
        i = i + 1;
    }
    Ok(())
}

/// Whether a file path belongs to an input: the input's root contains the
/// path and the file's extension is one of the input's, case-insensitively.
pub open spec fn spec_input_matches(inp: InputConfig, path: Seq<char>) -> bool {
    &&& spec_extension(path) is Some
    &&& spec_is_path_prefix(inp.path@, path)
    &&& exists|k: int|
        0 <= k < inp.extensions@.len() && #[trigger] lower_of(inp.extensions@[k]@) == lower_of(
            spec_extension(path).unwrap(),
        )
}

/// The first input a file path belongs to, if any.
pub open spec fn spec_first_match(inputs: Seq<InputConfig>, path: Seq<char>) -> Option<InputConfig>
    decreases inputs.len(),
{
    if inputs.len() == 0 {
        None
    } else if spec_input_matches(inputs[0], path) {
        Some(inputs[0])
    } else {
        spec_first_match(inputs.drop_first(), path)
    }
}

impl Config {
    /// The first configured input whose root contains the file and whose
    /// extension set holds the file's extension; files a watcher reports are
    /// matched against the inputs in their configured order.
    pub fn find_matching_input<'a>(&'a self, file_path: &str) -> (r: Option<&'a InputConfig>)
        ensures
            match r {
                Some(inp) => spec_first_match(self.inputs@, file_path@) == Some(*inp),
                None => spec_first_match(self.inputs@, file_path@) is None,
            },
    {
        let ext_opt = extension(file_path);
        let ext = match ext_opt {
            Some(e) => e,
            None => {
                proof {
                    lemma_first_match_no_extension(self.inputs@, file_path@);
                }
                return None;
            },
        };
        let mut i: usize = 0;
        proof {
            assert(self.inputs@.skip(0) =~= self.inputs@);
        }
        while i < self.inputs.len()
            invariant
                i <= self.inputs@.len(),
                spec_extension(file_path@) == Some(ext@),
                spec_first_match(self.inputs@, file_path@) == spec_first_match(
                    self.inputs@.skip(i as int),
                    file_path@,
                ),
            decreases self.inputs@.len() - i,
        {
            let input = &self.inputs[i];
            proof {
                assert(self.inputs@.skip(i as int)[0] == self.inputs@[i as int]);
                assert(self.inputs@.skip(i as int).drop_first() =~= self.inputs@.skip(
                    i as int + 1,
                ));
            }
            if is_path_prefix(input.path.as_str(), file_path) && extension_matches(
                &input.extensions,
                ext.as_str(),
            ) {
                return Some(input);
            }
            i = i + 1;
        }
        None
    }
}

proof fn lemma_first_match_no_extension(inputs: Seq<InputConfig>, path: Seq<char>)
    requires
        spec_extension(path) is None,
    ensures
        spec_first_match(inputs, path) is None,
    decreases inputs.len(),
{
    if inputs.len() > 0 {
        lemma_first_match_no_extension(inputs.drop_first(), path);
    }
}

/// The output file path for an input file: the template rendered with the
/// file's stem, the container extension appended, inside the destination
/// directory.
pub open spec fn spec_output_file_path(
    input: Seq<char>,
    out_dir: Seq<char>,
    template: Seq<char>,
    container: Seq<char>,
) -> Option<Seq<char>> {
    match spec_file_stem(input) {
        None => None,
        Some(stem) => Some(
            spec_join_path(out_dir, spec_render(template, stem) + seq!['.'] + container),
        ),
    }
}

/// Renders the output path of `input_path` under `output_config`.
pub fn create_output_path(input_path: &str, output_config: &OutputConfig) -> (r: Result<
    String,
    JobError,
>)
    ensures
        match r {
            Ok(p) => spec_output_file_path(
                input_path@,
                output_config.path@,
                output_config.filename_template@,
                output_config.container@,
            ) == Some(p@),
            Err(e) => e == JobError::NoFileStem && spec_file_stem(input_path@) is None,
        },
{
    let stem = match file_stem(input_path) {
        Some(s) => s,
        None => {
            return Err(JobError::NoFileStem);
        },
    };
    let rendered = render_template(output_config.filename_template.as_str(), stem.as_str());
    let with_dot = rendered.concat(".");
    let full_name = with_dot.concat(output_config.container.as_str());
    proof {
        reveal_strlit(".");
        assert(full_name@ =~= spec_render(output_config.filename_template@, stem@) + seq!['.']
            + output_config.container@);
    }
    Ok(join_path(output_config.path.as_str(), full_name.as_str()))
}

/// The whole resolution of a file path against the configuration: the first
/// matching input, the output it names, and the rendered output path.
pub open spec fn spec_output_path_for(c: Config, path: Seq<char>) -> Result<Seq<char>, JobError> {
    match spec_first_match(c.inputs@, path) {
        None => Err(JobError::NoMatchingInput),
        Some(inp) => match assoc_lookup(c.outputs@, inp.output@) {
            None => Err(JobError::UnknownOutput(inp.output)),
            Some(out) => match spec_output_file_path(
                path,
                out.path@,
                out.filename_template@,
                out.container@,
            ) {
                None => Err(JobError::NoFileStem),
                Some(p) => Ok(p),
            },
        },
    }
}

/// What a worker resolves before it may run the tool: the matched input's
/// preset, and the rendered output path.
pub open spec fn spec_resolve(c: Config, path: Seq<char>) -> Result<
    (PresetConfig, Seq<char>),
    JobError,
> {
    match spec_first_match(c.inputs@, path) {
        None => Err(JobError::NoMatchingInput),
        Some(inp) => match assoc_lookup(c.presets@, inp.preset@) {
            None => Err(JobError::UnknownPreset(inp.preset)),
            Some(pr) => match assoc_lookup(c.outputs@, inp.output@) {
                None => Err(JobError::UnknownOutput(inp.output)),
                Some(out) => match spec_output_file_path(
                    path,
                    out.path@,
                    out.filename_template@,
                    out.container@,
                ) {
                    None => Err(JobError::NoFileStem),
                    Some(p) => Ok((pr, p)),
                },
            },
        },
    }
}

impl Config {
    /// Resolves everything a worker needs for a file: the first matching
    /// input's preset and the rendered output path, or which step failed.
    pub fn resolve_job<'a>(&'a self, file_path: &str) -> (r: Result<
        (&'a PresetConfig, String),
        JobError,
    >)
        ensures
            match r {
                Ok(pr) => spec_resolve(*self, file_path@) == Ok::<(PresetConfig, Seq<char>), JobError>(
                    (*pr.0, pr.1@),
                ),
                Err(e) => spec_resolve(*self, file_path@) == Err::<(PresetConfig, Seq<char>), JobError>(
                    e,
                ),
            },
    {
        let input = match self.find_matching_input(file_path) {
            Some(inp) => inp,
            None => {
                return Err(JobError::NoMatchingInput);
            },
        };
        let preset = match self.get_preset(&input.preset) {
            Ok(p) => p,
            Err(e) => {
                return Err(e);
            },
        };
        let output = match self.get_output(&input.output) {
            Ok(o) => o,
            Err(e) => {
                return Err(e);
            },
        };
        match create_output_path(file_path, output) {
            Ok(p) => Ok((preset, p)),
            Err(e) => Err(e),
        }
    }
}

impl Config {
    /// Where the output of `file_path` goes, resolving the matched input's
    /// output reference and rendering its template.
    pub fn get_output_path_for_file(&self, file_path: &str) -> (r: Result<String, JobError>)
        ensures
            match r {
                Ok(p) => spec_output_path_for(*self, file_path@) == Ok::<Seq<char>, JobError>(p@),
                Err(e) => spec_output_path_for(*self, file_path@) == Err::<Seq<char>, JobError>(e),
            },
    {
        let input = match self.find_matching_input(file_path) {
            Some(inp) => inp,
            None => {
                return Err(JobError::NoMatchingInput);
            },
        };
        let output = match self.get_output(&input.output) {
            Ok(o) => o,
            Err(e) => {
                return Err(e);
            },
        };
        create_output_path(file_path, output)
    }
}

} // verus!
