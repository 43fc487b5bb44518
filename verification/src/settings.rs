use vstd::prelude::*;

verus! {

/// The compile command of the command line: the path of the input file whose
/// directory tree is watched.
pub struct CompileCommand {
    pub input: String,
}

/// The fonts command of the command line: whether to list style variants.
pub struct FontsCommand {
    pub variants: bool,
}

/// Which subcommand was requested.
pub enum Command {
    Watch(CompileCommand),
    Fonts(FontsCommand),
}

/// The parsed command line: the subcommand plus the options shared by all
/// subcommands.
pub struct CliArguments {
    pub command: Command,
    pub root: Option<String>,
    pub font_paths: Vec<String>,
    pub host: Option<String>,
}

/// A summary of the input arguments relevant to compilation.
pub struct CompileSettings {
    /// The path to the input file.
    pub input: String,
    /// Whether to watch the input files for changes.
    pub watch: bool,
    /// The root directory for absolute paths.
    pub root: Option<String>,
    /// The paths to search for fonts.
    pub font_paths: Vec<String>,
}

impl CompileSettings {
    /// Create a new compile settings from the field values.
    pub fn new(input: String, watch: bool, root: Option<String>, font_paths: Vec<String>) -> (r:
        Self)
        ensures
            r.input == input,
            r.watch == watch,
            r.root == root,
            r.font_paths == font_paths,
    {
        Self { input, watch, root, font_paths }
    }

    /// Create a new compile settings from the command-line arguments. Watching
    /// is always on: the only compiling subcommand is the watch command, and
    /// the arguments must carry it.
    pub fn with_arguments(args: CliArguments) -> (r: Self)
        requires
            args.command is Watch,
        ensures
            r.input == args.command->Watch_0.input,
            r.watch == true,
            r.root == args.root,
            r.font_paths == args.font_paths,
    {
        match args.command {
            Command::Watch(command) => Self::new(command.input, true, args.root, args.font_paths),
            Command::Fonts(_) => Self::new(String::new(), true, args.root, args.font_paths),
        }
    }
}

/// A summary of the input arguments relevant to font listing.
pub struct FontsSettings {
    /// The font paths.
    pub font_paths: Vec<String>,
    /// Whether to include font variants.
    pub variants: bool,
}

impl FontsSettings {
    /// Create font settings from the field values.
    pub fn new(font_paths: Vec<String>, variants: bool) -> (r: Self)
        ensures
            r.font_paths == font_paths,
            r.variants == variants,
    {
        Self { font_paths, variants }
    }

    /// Create a new font settings from the command-line arguments, which must
    /// carry the fonts command.
    pub fn with_arguments(args: CliArguments) -> (r: Self)
        requires
            args.command is Fonts,
        ensures
            r.font_paths == args.font_paths,
            r.variants == args.command->Fonts_0.variants,
    {
        match args.command {
            Command::Fonts(command) => Self::new(args.font_paths, command.variants),
            Command::Watch(_) => Self::new(args.font_paths, false),
        }
    }
}

} // verus!
