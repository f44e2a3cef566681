//! The settings of a run.
use vstd::prelude::*;
use crate::text::{list_items, lower_of, parse_list, split_on, split_on_char, strip_key, trim, trim_of, views};

verus! {

/// The settings of a run: what to do with a directory after its images have
/// been converted, and the encoder flags for each source format.
#[derive(Clone, Debug)]
pub struct JxlArgs {
    /// Remove a directory once it has been packed.
    pub delete_folder: bool,
    /// Remove each source image once the whole directory has converted.
    pub delete_source_image: bool,
    /// Pack the outputs of a directory into an archive.
    pub make_zip: bool,
    /// Delete irreversibly instead of moving to the trash.
    pub dont_use_trashcan_just_delete: bool,
    /// Encoder flags for PNG sources, in order.
    pub png_args: Vec<String>,
    /// Encoder flags for JPEG sources, in order.
    pub jpg_args: Vec<String>,
}

impl Default for JxlArgs {
    /// Pack, delete nothing, use the trash, and no encoder flags.
    fn default() -> (r: Self)
        ensures
            !r.delete_folder,
            !r.delete_source_image,
            r.make_zip,
            !r.dont_use_trashcan_just_delete,
            r.png_args@.len() == 0,
            r.jpg_args@.len() == 0,
    {
        JxlArgs {
            delete_folder: false,
            delete_source_image: false,
            make_zip: true,
            dont_use_trashcan_just_delete: false,
            png_args: Vec::new(),
            jpg_args: Vec::new(),
        }
    }
}

impl JxlArgs {
    /// Both formats have at least one encoder flag; a run cannot start otherwise.
    pub open spec fn spec_is_usable(&self) -> bool {
        self.png_args@.len() > 0 && self.jpg_args@.len() > 0
    }

    /// Whether both formats have at least one encoder flag.
    #[verifier::when_used_as_spec(spec_is_usable)]
    pub fn is_usable(&self) -> (r: bool)
        ensures
            r == self.spec_is_usable(),
    {
        self.png_args.len() > 0 && self.jpg_args.len() > 0
    }
}

/// The settings as plain values.
pub struct ArgsModel {
    pub delete_folder: bool,
    pub delete_source_image: bool,
    pub make_zip: bool,
    pub dont_use_trashcan_just_delete: bool,
    pub png_args: Seq<Seq<char>>,
    pub jpg_args: Seq<Seq<char>>,
}

impl View for JxlArgs {
    type V = ArgsModel;

    open spec fn view(&self) -> ArgsModel {
        ArgsModel {
            delete_folder: self.delete_folder,
            delete_source_image: self.delete_source_image,
            make_zip: self.make_zip,
            dont_use_trashcan_just_delete: self.dont_use_trashcan_just_delete,
            png_args: views(self.png_args@),
            jpg_args: views(self.jpg_args@),
        }
    }
}

pub open spec fn key_delete_folder() -> Seq<char> {
    seq!['d', 'e', 'l', 'e', 't', 'e', '_', 'f', 'o', 'l', 'd', 'e', 'r', '=']
}

pub open spec fn key_delete_source_image() -> Seq<char> {
    seq![
        'd', 'e', 'l', 'e', 't', 'e', '_', 's', 'o', 'u', 'r', 'c', 'e', '_', 'i', 'm', 'a', 'g',
        'e', '=',
    ]
}

pub open spec fn key_make_zip() -> Seq<char> {
    seq!['m', 'a', 'k', 'e', '_', 'z', 'i', 'p', '=']
}

pub open spec fn key_dont_use_trashcan() -> Seq<char> {
    seq![
        'd', 'o', 'n', 't', '_', 'u', 's', 'e', '_', 't', 'r', 'a', 's', 'h', 'c', 'a', 'n', '_',
        'j', 'u', 's', 't', '_', 'd', 'e', 'l', 'e', 't', 'e', '=',
    ]
}

pub open spec fn key_png_args() -> Seq<char> {
    seq!['p', 'n', 'g', '_', 'a', 'r', 'g', 's', '=']
}

pub open spec fn key_jpg_args() -> Seq<char> {
    seq!['j', 'p', 'g', '_', 'a', 'r', 'g', 's', '=']
}

pub open spec fn word_true() -> Seq<char> {
    seq!['t', 'r', 'u', 'e']
}

pub open spec fn word_false() -> Seq<char> {
    seq!['f', 'a', 'l', 's', 'e']
}

/// The settings after one trimmed line of a settings file. The keys are tried
/// in a fixed order; a flag is switched away from its default only by the word
/// that names the other value (in any case), a list replaces the one before, and
/// any other line changes nothing.
pub open spec fn apply_line(m: ArgsModel, line: Seq<char>) -> ArgsModel {
    if key_delete_folder().is_prefix_of(line) {
        let v = lower_of(line.skip(key_delete_folder().len() as int));
        if v == word_true() {
            ArgsModel { delete_folder: true, ..m }
        } else {
            m
        }
    } else if key_delete_source_image().is_prefix_of(line) {
        let v = lower_of(line.skip(key_delete_source_image().len() as int));
        if v == word_true() {
            ArgsModel { delete_source_image: true, ..m }
        } else {
            m
        }
    } else if key_make_zip().is_prefix_of(line) {
        let v = lower_of(line.skip(key_make_zip().len() as int));
        if v == word_false() {
            ArgsModel { make_zip: false, ..m }
        } else {
            m
        }
    } else if key_dont_use_trashcan().is_prefix_of(line) {
        let v = lower_of(line.skip(key_dont_use_trashcan().len() as int));
        if v == word_true() {
            ArgsModel { dont_use_trashcan_just_delete: true, ..m }
        } else {
            m
        }
    } else if key_png_args().is_prefix_of(line) {
        ArgsModel { png_args: list_items(line.skip(key_png_args().len() as int)), ..m }
    } else if key_jpg_args().is_prefix_of(line) {
        ArgsModel { jpg_args: list_items(line.skip(key_jpg_args().len() as int)), ..m }
    } else {
        m
    }
}

/// The settings after each of `lines`, trimmed, in order.
pub open spec fn apply_lines(m: ArgsModel, lines: Seq<Seq<char>>) -> ArgsModel
    decreases lines.len(),
{
    if lines.len() == 0 {
        m
    } else {
        apply_line(apply_lines(m, lines.drop_last()), trim_of(lines.last()))
    }
}

/// The settings before any line is read: pack, delete nothing, use the trash,
/// no encoder flags.
pub open spec fn initial_model() -> ArgsModel {
    ArgsModel {
        delete_folder: false,
        delete_source_image: false,
        make_zip: true,
        dont_use_trashcan_just_delete: false,
        png_args: Seq::empty(),
        jpg_args: Seq::empty(),
    }
}

/// The settings that a settings file's text gives: its lines, cut at each line
/// feed, applied in order to the initial settings.
pub open spec fn settings_of(text: Seq<char>) -> ArgsModel {
    apply_lines(initial_model(), split_on(text, '\n'))
}

fn is_word(value: &str, word: &str) -> (r: bool)
    ensures
        r == (lower_of(value@) == word@),
{
    crate::text::lowercase(value) == String::from_str(word)
}

/// Applies one trimmed line of a settings file.
fn read_line(args: &mut JxlArgs, line: &str)
    ensures
        final(args)@ == apply_line(old(args)@, line@),
{
    proof {
        reveal_strlit("delete_folder=");
        reveal_strlit("delete_source_image=");
        reveal_strlit("make_zip=");
        reveal_strlit("dont_use_trashcan_just_delete=");
        reveal_strlit("png_args=");
        reveal_strlit("jpg_args=");
        reveal_strlit("true");
        reveal_strlit("false");
        assert("delete_folder="@ =~= key_delete_folder());
        assert("delete_source_image="@ =~= key_delete_source_image());
        assert("make_zip="@ =~= key_make_zip());
        assert("dont_use_trashcan_just_delete="@ =~= key_dont_use_trashcan());
        assert("png_args="@ =~= key_png_args());
        assert("jpg_args="@ =~= key_jpg_args());
        assert("true"@ =~= word_true());
        assert("false"@ =~= word_false());
    }
    if let Some(v) = strip_key(line, "delete_folder=") {
        if is_word(v.as_str(), "true") {
            args.delete_folder = true;
        }
    } else if let Some(v) = strip_key(line, "delete_source_image=") {
        if is_word(v.as_str(), "true") {
            args.delete_source_image = true;
        }
    } else if let Some(v) = strip_key(line, "make_zip=") {
        if is_word(v.as_str(), "false") {
            args.make_zip = false;
        }
    } else if let Some(v) = strip_key(line, "dont_use_trashcan_just_delete=") {
        if is_word(v.as_str(), "true") {
            args.dont_use_trashcan_just_delete = true;
        }
    } else if let Some(v) = strip_key(line, "png_args=") {
        args.png_args = parse_list(v.as_str());
    } else if let Some(v) = strip_key(line, "jpg_args=") {
        args.jpg_args = parse_list(v.as_str());
    }
}

impl JxlArgs {
    /// The settings that the text of a settings file gives. Lines are trimmed;
    /// `key=value` lines set the flags `delete_folder`, `delete_source_image`,
    /// `make_zip` and `dont_use_trashcan_just_delete` and the flag lists
    /// `png_args` and `jpg_args` (written `[a,b,...]`); other lines are ignored.
    pub fn parse(text: &str) -> (r: JxlArgs)
        ensures
            r@ == settings_of(text@),
    {
        let lines = split_on_char(text, '\n');
        let mut args = JxlArgs::default();
        proof {
            assert(views(args.png_args@) =~= Seq::<Seq<char>>::empty());
            assert(views(args.jpg_args@) =~= Seq::<Seq<char>>::empty());
        }
        let mut i: usize = 0;
        while i < lines.len()
            invariant
                i <= lines@.len(),
                views(lines@) == split_on(text@, '\n'),
                args@ == apply_lines(initial_model(), views(lines@).subrange(0, i as int)),
            decreases lines@.len() - i,
        {
            let line = trim(lines[i].as_str());
            read_line(&mut args, line.as_str());
            proof {
                let pre = views(lines@).subrange(0, i + 1);
                assert(pre.drop_last() =~= views(lines@).subrange(0, i as int));
                assert(pre.last() == lines@[i as int]@);
            }
            i = i + 1;
        }
        proof {
            assert(views(lines@).subrange(0, lines@.len() as int) =~= views(lines@));
        }
        args
    }

    /// The settings of a run without a settings file: pack, delete nothing, use
    /// the trash, and lossless flags for both formats.
    pub fn fallback() -> (r: JxlArgs)
        ensures
            !r.delete_folder,
            !r.delete_source_image,
            r.make_zip,
            !r.dont_use_trashcan_just_delete,
            views(r.png_args@) == seq![default_flag_distance(), default_flag_png_effort()],
            views(r.jpg_args@) == seq![
                default_flag_distance(),
                default_flag_jpg_effort(),
                default_flag_lossless_jpeg(),
            ],
    {
        proof {
            reveal_strlit("--distance=0");
            reveal_strlit("--effort=7");
            reveal_strlit("--effort=9");
            reveal_strlit("--lossless_jpeg=1");
            assert("--distance=0"@ =~= default_flag_distance());
            assert("--effort=7"@ =~= default_flag_png_effort());
            assert("--effort=9"@ =~= default_flag_jpg_effort());
            assert("--lossless_jpeg=1"@ =~= default_flag_lossless_jpeg());
        }
        let mut args = JxlArgs::default();
        args.png_args = vec![String::from_str("--distance=0"), String::from_str("--effort=7")];
        args.jpg_args = vec![
            String::from_str("--distance=0"),
            String::from_str("--effort=9"),
            String::from_str("--lossless_jpeg=1"),
        ];
        proof {
            assert(views(args.png_args@) =~~= seq![default_flag_distance(), default_flag_png_effort()]);
            assert(views(args.jpg_args@) =~~= seq![
                default_flag_distance(),
                default_flag_jpg_effort(),
                default_flag_lossless_jpeg(),
            ]);
        }
        args
    }
}

/// The text that a fresh settings file holds; it reads back as `fallback`.
pub const DEFAULT_SETTINGS_TEXT: &'static str = "delete_folder=false\ndelete_source_image=false\nmake_zip=true\ndont_use_trashcan_just_delete=false\npng_args=[--distance=0,--effort=7]\njpg_args=[--distance=0,--effort=9,--lossless_jpeg=1]";

pub open spec fn default_flag_distance() -> Seq<char> {
    seq!['-', '-', 'd', 'i', 's', 't', 'a', 'n', 'c', 'e', '=', '0']
}

pub open spec fn default_flag_png_effort() -> Seq<char> {
    seq!['-', '-', 'e', 'f', 'f', 'o', 'r', 't', '=', '7']
}

pub open spec fn default_flag_jpg_effort() -> Seq<char> {
    seq!['-', '-', 'e', 'f', 'f', 'o', 'r', 't', '=', '9']
}

pub open spec fn default_flag_lossless_jpeg() -> Seq<char> {
    seq!['-', '-', 'l', 'o', 's', 's', 'l', 'e', 's', 's', '_', 'j', 'p', 'e', 'g', '=', '1']
}

} // verus!
