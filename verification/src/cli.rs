//! Command-line value types and the checks on user-supplied paths.
//!
//! Parsing the actual argument list is I/O and lives with the front end,
//! which builds these values and must call the validators first, as the
//! verified constructors require what the validators establish.

use crate::scenes::Scene;
use crate::text::{ends_with, spec_ends_with};
use vstd::prelude::*;

verus! {

/// The path of the scene-description file.
#[derive(Debug, PartialEq)]
pub struct ConfigPath(pub String);

/// The path the rendered image is written to.
#[derive(Debug, PartialEq)]
pub struct OutputPath(pub String);

/// The path of one texture-image asset.
#[derive(Debug, PartialEq)]
pub struct ImagePath(pub String);

impl ConfigPath {
    /// The path as text.
    pub fn path(&self) -> (r: &str)
        ensures
            r@ == self.0@,
    {
        self.0.as_str()
    }
}

impl OutputPath {
    /// The path as text.
    pub fn path(&self) -> (r: &str)
        ensures
            r@ == self.0@,
    {
        self.0.as_str()
    }
}

/// The character sequence after the last `/` of `s` (all of `s` when it
/// has none).
pub open spec fn spec_file_name(s: Seq<char>) -> Seq<char>
    decreases s,
{
    if s.len() == 0 {
        s
    } else if s.last() == '/' {
        Seq::empty()
    } else {
        spec_file_name(s.drop_last()).push(s.last())
    }
}

impl ImagePath {
    /// The path as text.
    pub fn path(&self) -> (r: &str)
        ensures
            r@ == self.0@,
    {
        self.0.as_str()
    }

    /// The file name: what follows the last `/` of the path.
    pub fn file_name(&self) -> (r: &str)
        ensures
            r@ == spec_file_name(self.0@),
    {
        let s = self.0.as_str();
        let n = s.unicode_len();
        let mut start: usize = n;
        while start > 0
            invariant
                start <= n,
                n == s@.len(),
                forall|j: int| start <= j < n ==> s@[j] != '/',
            ensures
                start <= n,
                n == s@.len(),
                forall|j: int| start <= j < n ==> s@[j] != '/',
                start > 0 ==> s@[start as int - 1] == '/',
            decreases start,
        {
            if s.get_char(start - 1) == '/' {
                break ;
            }
            start = start - 1;
        }
        let r = s.substring_char(start, n);
        proof {
            lemma_file_name_suffix(s@, start as int);
        }
        r
    }
}

/// When everything after `start` is free of `/`, and either `start` is 0
/// or a `/` stands just before it, the file name of `s` is the suffix
/// from `start`.
proof fn lemma_file_name_suffix(s: Seq<char>, start: int)
    requires
        0 <= start <= s.len(),
        forall|j: int| start <= j < s.len() ==> s[j] != '/',
        start > 0 ==> s[start - 1] == '/',
    ensures
        spec_file_name(s) == s.subrange(start, s.len() as int),
    decreases s.len() - start,
{
    if start == s.len() {
        if start > 0 {
            assert(spec_file_name(s) =~= s.subrange(start, s.len() as int));
        } else {
            assert(s.len() == 0);
            assert(spec_file_name(s) =~= s.subrange(start, s.len() as int));
        }
    } else {
        lemma_file_name_suffix(s.drop_last(), start);
        assert(s.drop_last().subrange(start, s.drop_last().len() as int) =~= s.subrange(
            start,
            s.len() - 1,
        ));
        assert(spec_file_name(s) =~= s.subrange(start, s.len() as int));
    }
}

/// What the renderer was asked to do.
#[derive(Debug, PartialEq)]
pub enum CliCommand {
    RENDER {
        width: u32,
        output_path: OutputPath,
        num_of_rays: u64,
        num_of_threads: usize,
        asset_paths: Vec<ImagePath>,
    },
    GENERATE { scene: Scene },
}

/// The parsed command line: a command and the scene-file path.
#[derive(Debug, PartialEq)]
pub struct CliConfig {
    pub command: CliCommand,
    pub config_path: ConfigPath,
}

impl CliConfig {
    /// Assembles a parsed command line; the paths must have passed the
    /// validators.
    pub fn new(command: CliCommand, config_path: ConfigPath) -> (r: CliConfig)
        requires
            spec_config_path_valid(config_path.0@),
            command matches CliCommand::RENDER { output_path, .. } ==> spec_output_path_valid(
                output_path.0@,
            ),
        ensures
            r.command == command,
            r.config_path == config_path,
    {
        CliConfig { command, config_path }
    }

    /// The command to run.
    pub fn command(&self) -> (r: &CliCommand)
        ensures
            r == self.command,
    {
        &self.command
    }

    /// The scene-file path.
    pub fn config_path(&self) -> (r: &ConfigPath)
        ensures
            r == self.config_path,
    {
        &self.config_path
    }
}

/// A rejected command-line value.
#[derive(Debug, PartialEq)]
pub enum CliParsingError {
    InvalidConfigPath { config_path: String },
    InvalidOutputPath { output_path: String },
}

impl CliParsingError {
    /// The error rendered as a line of text.
    pub fn message(&self) -> String {
        match self {
            CliParsingError::InvalidConfigPath { config_path } => {
                let mut message = String::new();
                message.append("Config path <");
                message.append(config_path.as_str());
                message.append("> must end in .yaml");
                message
            },
            CliParsingError::InvalidOutputPath { output_path } => {
                let mut message = String::new();
                message.append("Output path <");
                message.append(output_path.as_str());
                message.append("> must end in one of .ppm, .jpeg, .jpg, .png");
                message
            },
        }
    }
}

/// A scene-file path is acceptable when it ends in `.yaml`.
pub open spec fn spec_config_path_valid(path: Seq<char>) -> bool {
    spec_ends_with(path, ".yaml"@)
}

/// An output path is acceptable when it ends in one of the supported
/// image extensions.
pub open spec fn spec_output_path_valid(path: Seq<char>) -> bool {
    ||| spec_ends_with(path, ".ppm"@)
    ||| spec_ends_with(path, ".jpeg"@)
    ||| spec_ends_with(path, ".jpg"@)
    ||| spec_ends_with(path, ".png"@)
}

/// The image-file extensions the output path may use.
pub fn supported_image_ext() -> (r: Vec<&'static str>)
    ensures
        r@.len() == 4,
        r@[0]@ == ".ppm"@,
        r@[1]@ == ".jpeg"@,
        r@[2]@ == ".jpg"@,
        r@[3]@ == ".png"@,
{
    let mut r: Vec<&'static str> = Vec::new();
    r.push(".ppm");
    r.push(".jpeg");
    r.push(".jpg");
    r.push(".png");
    r
}

/// Accepts a scene-file path exactly when it ends in `.yaml`, else
/// reports the path.
pub fn validate_config_path(config_path: &str) -> (r: Result<(), CliParsingError>)
    ensures
        r.is_ok() <==> spec_config_path_valid(config_path@),
        match r {
            Ok(()) => true,
            Err(CliParsingError::InvalidConfigPath { config_path: reported }) => reported@
                == config_path@,
            Err(_) => false,
        },
{
    if !ends_with(config_path, ".yaml") {
        return Err(CliParsingError::InvalidConfigPath { config_path: config_path.to_owned() });
    }
    Ok(())
}

/// Accepts an output path exactly when it ends in a supported image
/// extension, else reports the path.
pub fn validate_output_path(output_path: &str) -> (r: Result<(), CliParsingError>)
    ensures
        r.is_ok() <==> spec_output_path_valid(output_path@),
        match r {
            Ok(()) => true,
            Err(CliParsingError::InvalidOutputPath { output_path: reported }) => reported@
                == output_path@,
            Err(_) => false,
        },
{
    if ends_with(output_path, ".ppm") || ends_with(output_path, ".jpeg") || ends_with(
        output_path,
        ".jpg",
    ) || ends_with(output_path, ".png") {
        Ok(())
    } else {
        Err(CliParsingError::InvalidOutputPath { output_path: output_path.to_owned() })
    }
}

} // verus!
