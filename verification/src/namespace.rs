//! The namespace registry: a static bidirectional mapping between the
//! known namespace identifiers and their canonical names, with a
//! case-insensitive name lookup that treats spaces and underscores alike.

use vstd::prelude::*;
use vstd::string::StrSliceExecFns;

use crate::text::{parse_u32_digits, spec_all_digits, spec_digits_value};

verus! {

/// The known namespaces: a sparse, non-contiguous set of identifiers,
/// each with a canonical display name.
#[derive(Copy, Clone, Eq, Debug, Hash, PartialEq, Structural)]
pub enum Namespace {
    Main,
    Talk,
    User,
    UserTalk,
    Wiktionary,
    WiktionaryTalk,
    File,
    FileTalk,
    MediaWiki,
    MediaWikiTalk,
    Template,
    TemplateTalk,
    Help,
    HelpTalk,
    Category,
    CategoryTalk,
    Thread,
    ThreadTalk,
    Summary,
    SummaryTalk,
    Appendix,
    AppendixTalk,
    Concordance,
    ConcordanceTalk,
    Index,
    IndexTalk,
    Rhymes,
    RhymesTalk,
    Transwiki,
    TranswikiTalk,
    Thesaurus,
    ThesaurusTalk,
    Citations,
    CitationsTalk,
    SignGloss,
    SignGlossTalk,
    Reconstruction,
    ReconstructionTalk,
    Module,
    ModuleTalk,
    Gadget,
    GadgetTalk,
    GadgetDefinition,
    GadgetDefinitionTalk,
}

/// The longest accepted namespace name, in bytes.
pub const NAMESPACE_MAX_LEN: usize = 22;

/// The numeric identifier of each namespace.
pub open spec fn spec_id(n: Namespace) -> u32 {
    match n {
        Namespace::Main => 0,
        Namespace::Talk => 1,
        Namespace::User => 2,
        Namespace::UserTalk => 3,
        Namespace::Wiktionary => 4,
        Namespace::WiktionaryTalk => 5,
        Namespace::File => 6,
        Namespace::FileTalk => 7,
        Namespace::MediaWiki => 8,
        Namespace::MediaWikiTalk => 9,
        Namespace::Template => 10,
        Namespace::TemplateTalk => 11,
        Namespace::Help => 12,
        Namespace::HelpTalk => 13,
        Namespace::Category => 14,
        Namespace::CategoryTalk => 15,
        Namespace::Thread => 90,
        Namespace::ThreadTalk => 91,
        Namespace::Summary => 92,
        Namespace::SummaryTalk => 93,
        Namespace::Appendix => 100,
        Namespace::AppendixTalk => 101,
        Namespace::Concordance => 102,
        Namespace::ConcordanceTalk => 103,
        Namespace::Index => 104,
        Namespace::IndexTalk => 105,
        Namespace::Rhymes => 106,
        Namespace::RhymesTalk => 107,
        Namespace::Transwiki => 108,
        Namespace::TranswikiTalk => 109,
        Namespace::Thesaurus => 110,
        Namespace::ThesaurusTalk => 111,
        Namespace::Citations => 114,
        Namespace::CitationsTalk => 115,
        Namespace::SignGloss => 116,
        Namespace::SignGlossTalk => 117,
        Namespace::Reconstruction => 118,
        Namespace::ReconstructionTalk => 119,
        Namespace::Module => 828,
        Namespace::ModuleTalk => 829,
        Namespace::Gadget => 2300,
        Namespace::GadgetTalk => 2301,
        Namespace::GadgetDefinition => 2302,
        Namespace::GadgetDefinitionTalk => 2303,
    }
}

/// The namespace a numeric identifier designates, if any. An identifier
/// outside the known set maps to nothing: there is no default.
pub open spec fn spec_from_id(id: u32) -> Option<Namespace> {
    if id == 0 {
        Some(Namespace::Main)
    } else if id == 1 {
        Some(Namespace::Talk)
    } else if id == 2 {
        Some(Namespace::User)
    } else if id == 3 {
        Some(Namespace::UserTalk)
    } else if id == 4 {
        Some(Namespace::Wiktionary)
    } else if id == 5 {
        Some(Namespace::WiktionaryTalk)
    } else if id == 6 {
        Some(Namespace::File)
    } else if id == 7 {
        Some(Namespace::FileTalk)
    } else if id == 8 {
        Some(Namespace::MediaWiki)
    } else if id == 9 {
        Some(Namespace::MediaWikiTalk)
    } else if id == 10 {
        Some(Namespace::Template)
    } else if id == 11 {
        Some(Namespace::TemplateTalk)
    } else if id == 12 {
        Some(Namespace::Help)
    } else if id == 13 {
        Some(Namespace::HelpTalk)
    } else if id == 14 {
        Some(Namespace::Category)
    } else if id == 15 {
        Some(Namespace::CategoryTalk)
    } else if id == 90 {
        Some(Namespace::Thread)
    } else if id == 91 {
        Some(Namespace::ThreadTalk)
    } else if id == 92 {
        Some(Namespace::Summary)
    } else if id == 93 {
        Some(Namespace::SummaryTalk)
    } else if id == 100 {
        Some(Namespace::Appendix)
    } else if id == 101 {
        Some(Namespace::AppendixTalk)
    } else if id == 102 {
        Some(Namespace::Concordance)
    } else if id == 103 {
        Some(Namespace::ConcordanceTalk)
    } else if id == 104 {
        Some(Namespace::Index)
    } else if id == 105 {
        Some(Namespace::IndexTalk)
    } else if id == 106 {
        Some(Namespace::Rhymes)
    } else if id == 107 {
        Some(Namespace::RhymesTalk)
    } else if id == 108 {
        Some(Namespace::Transwiki)
    } else if id == 109 {
        Some(Namespace::TranswikiTalk)
    } else if id == 110 {
        Some(Namespace::Thesaurus)
    } else if id == 111 {
        Some(Namespace::ThesaurusTalk)
    } else if id == 114 {
        Some(Namespace::Citations)
    } else if id == 115 {
        Some(Namespace::CitationsTalk)
    } else if id == 116 {
        Some(Namespace::SignGloss)
    } else if id == 117 {
        Some(Namespace::SignGlossTalk)
    } else if id == 118 {
        Some(Namespace::Reconstruction)
    } else if id == 119 {
        Some(Namespace::ReconstructionTalk)
    } else if id == 828 {
        Some(Namespace::Module)
    } else if id == 829 {
        Some(Namespace::ModuleTalk)
    } else if id == 2300 {
        Some(Namespace::Gadget)
    } else if id == 2301 {
        Some(Namespace::GadgetTalk)
    } else if id == 2302 {
        Some(Namespace::GadgetDefinition)
    } else if id == 2303 {
        Some(Namespace::GadgetDefinitionTalk)
    } else {
        None
    }
}

/// The canonical display name of each namespace.
pub open spec fn spec_canonical_name(n: Namespace) -> Seq<char> {
    match n {
        Namespace::Main => ""@,
        Namespace::Talk => "Talk"@,
        Namespace::User => "User"@,
        Namespace::UserTalk => "User talk"@,
        Namespace::Wiktionary => "Wiktionary"@,
        Namespace::WiktionaryTalk => "Wiktionary talk"@,
        Namespace::File => "File"@,
        Namespace::FileTalk => "File talk"@,
        Namespace::MediaWiki => "MediaWiki"@,
        Namespace::MediaWikiTalk => "MediaWiki talk"@,
        Namespace::Template => "Template"@,
        Namespace::TemplateTalk => "Template talk"@,
        Namespace::Help => "Help"@,
        Namespace::HelpTalk => "Help talk"@,
        Namespace::Category => "Category"@,
        Namespace::CategoryTalk => "Category talk"@,
        Namespace::Thread => "Thread"@,
        Namespace::ThreadTalk => "Thread talk"@,
        Namespace::Summary => "Summary"@,
        Namespace::SummaryTalk => "Summary talk"@,
        Namespace::Appendix => "Appendix"@,
        Namespace::AppendixTalk => "Appendix talk"@,
        Namespace::Concordance => "Concordance"@,
        Namespace::ConcordanceTalk => "Concordance talk"@,
        Namespace::Index => "Index"@,
        Namespace::IndexTalk => "Index talk"@,
        Namespace::Rhymes => "Rhymes"@,
        Namespace::RhymesTalk => "Rhymes talk"@,
        Namespace::Transwiki => "Transwiki"@,
        Namespace::TranswikiTalk => "Transwiki talk"@,
        Namespace::Thesaurus => "Thesaurus"@,
        Namespace::ThesaurusTalk => "Thesaurus talk"@,
        Namespace::Citations => "Citations"@,
        Namespace::CitationsTalk => "Citations talk"@,
        Namespace::SignGloss => "Sign gloss"@,
        Namespace::SignGlossTalk => "Sign gloss talk"@,
        Namespace::Reconstruction => "Reconstruction"@,
        Namespace::ReconstructionTalk => "Reconstruction talk"@,
        Namespace::Module => "Module"@,
        Namespace::ModuleTalk => "Module talk"@,
        Namespace::Gadget => "Gadget"@,
        Namespace::GadgetTalk => "Gadget talk"@,
        Namespace::GadgetDefinition => "Gadget definition"@,
        Namespace::GadgetDefinitionTalk => "Gadget definition talk"@,
    }
}

/// Name canonicalization, one character at a time: ASCII letters fold to
/// lower case and underscores become spaces.
pub open spec fn spec_normalize_name_char(c: char) -> char {
    if 'A' <= c <= 'Z' {
        (((c as u8) + 0x20) as char)
    } else if c == '_' {
        ' '
    } else {
        c
    }
}

/// Name canonicalization of a whole name.
pub open spec fn spec_normalize_name(s: Seq<char>) -> Seq<char> {
    s.map_values(|c: char| spec_normalize_name_char(c))
}

/// The namespace a name designates, if any: the name is canonicalized
/// (case folded, underscores to spaces) and matched against the fixed
/// table. Non-ASCII names and names longer than [`NAMESPACE_MAX_LEN`]
/// match nothing. The canonical name of every namespace matches, in the
/// two spellings that history left for the software namespace, and the
/// empty name names the main namespace, whose canonical name is empty.
pub open spec fn spec_lookup_name(s: Seq<char>) -> Option<Namespace> {
    if !vstd::utf8::is_ascii_chars(s) || s.len() > 22 {
        None
    } else {
        let t = spec_normalize_name(s);
        if t == ""@ {
            Some(Namespace::Main)
        } else if t == "main"@ {
            Some(Namespace::Main)
        } else if t == "talk"@ {
            Some(Namespace::Talk)
        } else if t == "user"@ {
            Some(Namespace::User)
        } else if t == "user talk"@ {
            Some(Namespace::UserTalk)
        } else if t == "wiktionary"@ {
            Some(Namespace::Wiktionary)
        } else if t == "wiktionary talk"@ {
            Some(Namespace::WiktionaryTalk)
        } else if t == "file"@ {
            Some(Namespace::File)
        } else if t == "file talk"@ {
            Some(Namespace::FileTalk)
        } else if t == "mediawiki"@ {
            Some(Namespace::MediaWiki)
        } else if t == "media wiki"@ {
            Some(Namespace::MediaWiki)
        } else if t == "mediawiki talk"@ {
            Some(Namespace::MediaWikiTalk)
        } else if t == "media wiki talk"@ {
            Some(Namespace::MediaWikiTalk)
        } else if t == "template"@ {
            Some(Namespace::Template)
        } else if t == "template talk"@ {
            Some(Namespace::TemplateTalk)
        } else if t == "help"@ {
            Some(Namespace::Help)
        } else if t == "help talk"@ {
            Some(Namespace::HelpTalk)
        } else if t == "category"@ {
            Some(Namespace::Category)
        } else if t == "category talk"@ {
            Some(Namespace::CategoryTalk)
        } else if t == "thread"@ {
            Some(Namespace::Thread)
        } else if t == "thread talk"@ {
            Some(Namespace::ThreadTalk)
        } else if t == "summary"@ {
            Some(Namespace::Summary)
        } else if t == "summary talk"@ {
            Some(Namespace::SummaryTalk)
        } else if t == "appendix"@ {
            Some(Namespace::Appendix)
        } else if t == "appendix talk"@ {
            Some(Namespace::AppendixTalk)
        } else if t == "concordance"@ {
            Some(Namespace::Concordance)
        } else if t == "concordance talk"@ {
            Some(Namespace::ConcordanceTalk)
        } else if t == "index"@ {
            Some(Namespace::Index)
        } else if t == "index talk"@ {
            Some(Namespace::IndexTalk)
        } else if t == "rhymes"@ {
            Some(Namespace::Rhymes)
        } else if t == "rhymes talk"@ {
            Some(Namespace::RhymesTalk)
        } else if t == "transwiki"@ {
            Some(Namespace::Transwiki)
        } else if t == "transwiki talk"@ {
            Some(Namespace::TranswikiTalk)
        } else if t == "thesaurus"@ {
            Some(Namespace::Thesaurus)
        } else if t == "thesaurus talk"@ {
            Some(Namespace::ThesaurusTalk)
        } else if t == "citations"@ {
            Some(Namespace::Citations)
        } else if t == "citations talk"@ {
            Some(Namespace::CitationsTalk)
        } else if t == "sign gloss"@ {
            Some(Namespace::SignGloss)
        } else if t == "sign gloss talk"@ {
            Some(Namespace::SignGlossTalk)
        } else if t == "reconstruction"@ {
            Some(Namespace::Reconstruction)
        } else if t == "reconstruction talk"@ {
            Some(Namespace::ReconstructionTalk)
        } else if t == "module"@ {
            Some(Namespace::Module)
        } else if t == "module talk"@ {
            Some(Namespace::ModuleTalk)
        } else if t == "gadget"@ {
            Some(Namespace::Gadget)
        } else if t == "gadget talk"@ {
            Some(Namespace::GadgetTalk)
        } else if t == "gadget definition"@ {
            Some(Namespace::GadgetDefinition)
        } else if t == "gadget definition talk"@ {
            Some(Namespace::GadgetDefinitionTalk)
        } else {
            None
        }
    }
}

impl Namespace {
    /// The canonical display name.
    pub fn as_str(&self) -> (r: &'static str)
        ensures
            r@ == spec_canonical_name(*self),
    {
        match self {
            Namespace::Main => "",
            Namespace::Talk => "Talk",
            Namespace::User => "User",
            Namespace::UserTalk => "User talk",
            Namespace::Wiktionary => "Wiktionary",
            Namespace::WiktionaryTalk => "Wiktionary talk",
            Namespace::File => "File",
            Namespace::FileTalk => "File talk",
            Namespace::MediaWiki => "MediaWiki",
            Namespace::MediaWikiTalk => "MediaWiki talk",
            Namespace::Template => "Template",
            Namespace::TemplateTalk => "Template talk",
            Namespace::Help => "Help",
            Namespace::HelpTalk => "Help talk",
            Namespace::Category => "Category",
            Namespace::CategoryTalk => "Category talk",
            Namespace::Thread => "Thread",
            Namespace::ThreadTalk => "Thread talk",
            Namespace::Summary => "Summary",
            Namespace::SummaryTalk => "Summary talk",
            Namespace::Appendix => "Appendix",
            Namespace::AppendixTalk => "Appendix talk",
            Namespace::Concordance => "Concordance",
            Namespace::ConcordanceTalk => "Concordance talk",
            Namespace::Index => "Index",
            Namespace::IndexTalk => "Index talk",
            Namespace::Rhymes => "Rhymes",
            Namespace::RhymesTalk => "Rhymes talk",
            Namespace::Transwiki => "Transwiki",
            Namespace::TranswikiTalk => "Transwiki talk",
            Namespace::Thesaurus => "Thesaurus",
            Namespace::ThesaurusTalk => "Thesaurus talk",
            Namespace::Citations => "Citations",
            Namespace::CitationsTalk => "Citations talk",
            Namespace::SignGloss => "Sign gloss",
            Namespace::SignGlossTalk => "Sign gloss talk",
            Namespace::Reconstruction => "Reconstruction",
            Namespace::ReconstructionTalk => "Reconstruction talk",
            Namespace::Module => "Module",
            Namespace::ModuleTalk => "Module talk",
            Namespace::Gadget => "Gadget",
            Namespace::GadgetTalk => "Gadget talk",
            Namespace::GadgetDefinition => "Gadget definition",
            Namespace::GadgetDefinitionTalk => "Gadget definition talk",
        }
    }

    /// The numeric identifier.
    pub fn id(self) -> (r: u32)
        ensures
            r == spec_id(self),
    {
        match self {
            Namespace::Main => 0,
            Namespace::Talk => 1,
            Namespace::User => 2,
            Namespace::UserTalk => 3,
            Namespace::Wiktionary => 4,
            Namespace::WiktionaryTalk => 5,
            Namespace::File => 6,
            Namespace::FileTalk => 7,
            Namespace::MediaWiki => 8,
            Namespace::MediaWikiTalk => 9,
            Namespace::Template => 10,
            Namespace::TemplateTalk => 11,
            Namespace::Help => 12,
            Namespace::HelpTalk => 13,
            Namespace::Category => 14,
            Namespace::CategoryTalk => 15,
            Namespace::Thread => 90,
            Namespace::ThreadTalk => 91,
            Namespace::Summary => 92,
            Namespace::SummaryTalk => 93,
            Namespace::Appendix => 100,
            Namespace::AppendixTalk => 101,
            Namespace::Concordance => 102,
            Namespace::ConcordanceTalk => 103,
            Namespace::Index => 104,
            Namespace::IndexTalk => 105,
            Namespace::Rhymes => 106,
            Namespace::RhymesTalk => 107,
            Namespace::Transwiki => 108,
            Namespace::TranswikiTalk => 109,
            Namespace::Thesaurus => 110,
            Namespace::ThesaurusTalk => 111,
            Namespace::Citations => 114,
            Namespace::CitationsTalk => 115,
            Namespace::SignGloss => 116,
            Namespace::SignGlossTalk => 117,
            Namespace::Reconstruction => 118,
            Namespace::ReconstructionTalk => 119,
            Namespace::Module => 828,
            Namespace::ModuleTalk => 829,
            Namespace::Gadget => 2300,
            Namespace::GadgetTalk => 2301,
            Namespace::GadgetDefinition => 2302,
            Namespace::GadgetDefinitionTalk => 2303,
        }
    }

    /// Looks a namespace up by its numeric identifier; an identifier
    /// outside the known set is an error, never a default.
    pub fn try_from(id: u32) -> (r: Result<Namespace, &'static str>)
        ensures
            (match spec_from_id(id) {
                Some(n) => r == Ok::<_, &'static str>(n),
                None => r matches Err(e) && e@ == "invalid namespace id"@,
            }),
    {
        match id {
            0 => Ok(Namespace::Main),
            1 => Ok(Namespace::Talk),
            2 => Ok(Namespace::User),
            3 => Ok(Namespace::UserTalk),
            4 => Ok(Namespace::Wiktionary),
            5 => Ok(Namespace::WiktionaryTalk),
            6 => Ok(Namespace::File),
            7 => Ok(Namespace::FileTalk),
            8 => Ok(Namespace::MediaWiki),
            9 => Ok(Namespace::MediaWikiTalk),
            10 => Ok(Namespace::Template),
            11 => Ok(Namespace::TemplateTalk),
            12 => Ok(Namespace::Help),
            13 => Ok(Namespace::HelpTalk),
            14 => Ok(Namespace::Category),
            15 => Ok(Namespace::CategoryTalk),
            90 => Ok(Namespace::Thread),
            91 => Ok(Namespace::ThreadTalk),
            92 => Ok(Namespace::Summary),
            93 => Ok(Namespace::SummaryTalk),
            100 => Ok(Namespace::Appendix),
            101 => Ok(Namespace::AppendixTalk),
            102 => Ok(Namespace::Concordance),
            103 => Ok(Namespace::ConcordanceTalk),
            104 => Ok(Namespace::Index),
            105 => Ok(Namespace::IndexTalk),
            106 => Ok(Namespace::Rhymes),
            107 => Ok(Namespace::RhymesTalk),
            108 => Ok(Namespace::Transwiki),
            109 => Ok(Namespace::TranswikiTalk),
            110 => Ok(Namespace::Thesaurus),
            111 => Ok(Namespace::ThesaurusTalk),
            114 => Ok(Namespace::Citations),
            115 => Ok(Namespace::CitationsTalk),
            116 => Ok(Namespace::SignGloss),
            117 => Ok(Namespace::SignGlossTalk),
            118 => Ok(Namespace::Reconstruction),
            119 => Ok(Namespace::ReconstructionTalk),
            828 => Ok(Namespace::Module),
            829 => Ok(Namespace::ModuleTalk),
            2300 => Ok(Namespace::Gadget),
            2301 => Ok(Namespace::GadgetTalk),
            2302 => Ok(Namespace::GadgetDefinition),
            2303 => Ok(Namespace::GadgetDefinitionTalk),
            _ => Err("invalid namespace id"),
        }
    }

    /// Looks a namespace up by name, case-insensitively, treating spaces
    /// and underscores alike.
    pub fn from_str(name: &str) -> (r: Result<Namespace, &'static str>)
        ensures
            (match spec_lookup_name(name@) {
                Some(n) => r == Ok::<_, &'static str>(n),
                None => r matches Err(e) && e@ == "invalid namespace name"@,
            }),
    {
        if !name.is_ascii() {
            return Err("invalid namespace name");
        }
        let n_chars = name.unicode_len();
        if n_chars > NAMESPACE_MAX_LEN {
            return Err("invalid namespace name");
        }
        let mut t: Vec<char> = Vec::new();
        let mut i: usize = 0;
        proof {
            assert(name@.subrange(0, 0) =~= Seq::<char>::empty());
            assert(t@ =~= spec_normalize_name(name@.subrange(0, 0)));
        }
        while i < n_chars
            invariant
                0 <= i <= n_chars == name@.len(),
                vstd::utf8::is_ascii_chars(name@),
                t@ == spec_normalize_name(name@.subrange(0, i as int)),
            decreases n_chars - i,
        {
            let c = name.get_char(i);
            proof {
                assert('\0' <= name@[i as int] <= '\u{7f}');
            }
            t.push(normalize_name_char(c));
            proof {
                assert(spec_normalize_name(name@.subrange(0, i + 1)) =~= spec_normalize_name(
                    name@.subrange(0, i as int),
                ).push(spec_normalize_name_char(name@[i as int])));
            }
            i = i + 1;
        }
        proof {
            assert(name@.subrange(0, name@.len() as int) =~= name@);
        }
        if chars_eq(&t, "") {
            return Ok(Namespace::Main);
        }
        if chars_eq(&t, "main") {
            return Ok(Namespace::Main);
        }
        if chars_eq(&t, "talk") {
            return Ok(Namespace::Talk);
        }
        if chars_eq(&t, "user") {
            return Ok(Namespace::User);
        }
        if chars_eq(&t, "user talk") {
            return Ok(Namespace::UserTalk);
        }
        if chars_eq(&t, "wiktionary") {
            return Ok(Namespace::Wiktionary);
        }
        if chars_eq(&t, "wiktionary talk") {
            return Ok(Namespace::WiktionaryTalk);
        }
        if chars_eq(&t, "file") {
            return Ok(Namespace::File);
        }
        if chars_eq(&t, "file talk") {
            return Ok(Namespace::FileTalk);
        }
        if chars_eq(&t, "mediawiki") {
            return Ok(Namespace::MediaWiki);
        }
        if chars_eq(&t, "media wiki") {
            return Ok(Namespace::MediaWiki);
        }
        if chars_eq(&t, "mediawiki talk") {
            return Ok(Namespace::MediaWikiTalk);
        }
        if chars_eq(&t, "media wiki talk") {
            return Ok(Namespace::MediaWikiTalk);
        }
        if chars_eq(&t, "template") {
            return Ok(Namespace::Template);
        }
        if chars_eq(&t, "template talk") {
            return Ok(Namespace::TemplateTalk);
        }
        if chars_eq(&t, "help") {
            return Ok(Namespace::Help);
        }
        if chars_eq(&t, "help talk") {
            return Ok(Namespace::HelpTalk);
        }
        if chars_eq(&t, "category") {
            return Ok(Namespace::Category);
        }
        if chars_eq(&t, "category talk") {
            return Ok(Namespace::CategoryTalk);
        }
        if chars_eq(&t, "thread") {
            return Ok(Namespace::Thread);
        }
        if chars_eq(&t, "thread talk") {
            return Ok(Namespace::ThreadTalk);
        }
        if chars_eq(&t, "summary") {
            return Ok(Namespace::Summary);
        }
        if chars_eq(&t, "summary talk") {
            return Ok(Namespace::SummaryTalk);
        }
        if chars_eq(&t, "appendix") {
            return Ok(Namespace::Appendix);
        }
        if chars_eq(&t, "appendix talk") {
            return Ok(Namespace::AppendixTalk);
        }
        if chars_eq(&t, "concordance") {
            return Ok(Namespace::Concordance);
        }
        if chars_eq(&t, "concordance talk") {
            return Ok(Namespace::ConcordanceTalk);
        }
        if chars_eq(&t, "index") {
            return Ok(Namespace::Index);
        }
        if chars_eq(&t, "index talk") {
            return Ok(Namespace::IndexTalk);
        }
        if chars_eq(&t, "rhymes") {
            return Ok(Namespace::Rhymes);
        }
        if chars_eq(&t, "rhymes talk") {
            return Ok(Namespace::RhymesTalk);
        }
        if chars_eq(&t, "transwiki") {
            return Ok(Namespace::Transwiki);
        }
        if chars_eq(&t, "transwiki talk") {
            return Ok(Namespace::TranswikiTalk);
        }
        if chars_eq(&t, "thesaurus") {
            return Ok(Namespace::Thesaurus);
        }
        if chars_eq(&t, "thesaurus talk") {
            return Ok(Namespace::ThesaurusTalk);
        }
        if chars_eq(&t, "citations") {
            return Ok(Namespace::Citations);
        }
        if chars_eq(&t, "citations talk") {
            return Ok(Namespace::CitationsTalk);
        }
        if chars_eq(&t, "sign gloss") {
            return Ok(Namespace::SignGloss);
        }
        if chars_eq(&t, "sign gloss talk") {
            return Ok(Namespace::SignGlossTalk);
        }
        if chars_eq(&t, "reconstruction") {
            return Ok(Namespace::Reconstruction);
        }
        if chars_eq(&t, "reconstruction talk") {
            return Ok(Namespace::ReconstructionTalk);
        }
        if chars_eq(&t, "module") {
            return Ok(Namespace::Module);
        }
        if chars_eq(&t, "module talk") {
            return Ok(Namespace::ModuleTalk);
        }
        if chars_eq(&t, "gadget") {
            return Ok(Namespace::Gadget);
        }
        if chars_eq(&t, "gadget talk") {
            return Ok(Namespace::GadgetTalk);
        }
        if chars_eq(&t, "gadget definition") {
            return Ok(Namespace::GadgetDefinition);
        }
        if chars_eq(&t, "gadget definition talk") {
            return Ok(Namespace::GadgetDefinitionTalk);
        }
        Err("invalid namespace name")
    }
}

/// Canonicalizes one ASCII character of a namespace name.
pub fn normalize_name_char(c: char) -> (r: char)
    requires
        '\0' <= c <= '\u{7f}',
    ensures
        r == spec_normalize_name_char(c),
{
    if c >= 'A' && c <= 'Z' {
        ((c as u8) + 0x20) as char
    } else if c == '_' {
        ' '
    } else {
        c
    }
}

/// Compares a character vector with a string slice.
pub fn chars_eq(v: &Vec<char>, s: &str) -> (r: bool)
    ensures
        r == (v@ == s@),
{
    let n = s.unicode_len();
    if v.len() != n {
        assert(v@.len() != s@.len());
        return false;
    }
    let mut i: usize = 0;
    while i < n
        invariant
            0 <= i <= n == s@.len(),
            n == v@.len(),
            forall|j: int| 0 <= j < i ==> v@[j] == s@[j],
        decreases n - i,
    {
        if v[i] != s.get_char(i) {
            return false;
        }
        i = i + 1;
    }
    assert(v@ =~= s@);
    true
}

/// Byte-level canonicalization of a namespace name: ASCII letters fold to
/// lower case and underscores become spaces.
pub open spec fn spec_normalize_name_byte(b: u8) -> u8 {
    if 0x41 <= b <= 0x5a {
        (b + 0x20) as u8
    } else if b == 0x5f {
        0x20
    } else {
        b
    }
}

/// Canonicalizes a namespace name held as bytes, in place.
pub fn normalize_namespace_name(name: &mut Vec<u8>)
    ensures
        final(name)@ == old(name)@.map_values(|b: u8| spec_normalize_name_byte(b)),
{
    let n = name.len();
    let mut i: usize = 0;
    while i < n
        invariant
            0 <= i <= n == name@.len(),
            n == old(name)@.len(),
            forall|j: int| 0 <= j < i ==> name@[j] == spec_normalize_name_byte(old(name)@[j]),
            forall|j: int| i <= j < n ==> name@[j] == old(name)@[j],
        decreases n - i,
    {
        let b = name[i];
        if b >= 0x41 && b <= 0x5a {
            name.set(i, b + 0x20);
        } else if b == 0x5f {
            name.set(i, 0x20);
        } else {
            name.set(i, b);
        }
        i = i + 1;
    }
    proof {
        assert(name@ =~= old(name)@.map_values(|b: u8| spec_normalize_name_byte(b)));
    }
}

/// Whether a specifier is written as a number: nonempty and nothing but
/// decimal digits.
pub open spec fn spec_numeric_spec(s: Seq<char>) -> bool {
    s.len() > 0 && forall|i: int| 0 <= i < s.len() ==> '0' <= #[trigger] s[i] <= '9'
}

/// Parses a namespace specifier that may be either a numeric identifier or
/// a name; numeric parsing is attempted first. A numeric specifier outside
/// the known identifier set is an error, never a name.
pub fn parse_namespace_spec(s: &str) -> (r: Result<Namespace, &'static str>)
    ensures
        spec_numeric_spec(s@) ==> (if spec_digits_value(s@.map_values(|c: char| c as u8))
            <= u32::MAX && spec_from_id(
            spec_digits_value(s@.map_values(|c: char| c as u8)) as u32,
        ) is Some {
            r == Ok::<_, &'static str>(
                spec_from_id(spec_digits_value(s@.map_values(|c: char| c as u8)) as u32)->0,
            )
        } else {
            r is Err
        }),
        !spec_numeric_spec(s@) ==> (match spec_lookup_name(s@) {
            Some(n) => r == Ok::<_, &'static str>(n),
            None => r is Err,
        }),
{
    let n = s.unicode_len();
    let mut digits: Vec<u8> = Vec::new();
    let mut all_digit = n > 0;
    let mut i: usize = 0;
    while i < n
        invariant
            0 <= i <= n == s@.len(),
            all_digit ==> digits@ =~= s@.subrange(0, i as int).map_values(|c: char| c as u8),
            all_digit == (n > 0 && forall|j: int| 0 <= j < i ==> '0' <= #[trigger] s@[j] <= '9'),
        decreases n - i,
    {
        let c = s.get_char(i);
        if c >= '0' && c <= '9' {
            if all_digit {
                digits.push(c as u8);
                proof {
                    assert(s@.subrange(0, i + 1).map_values(|c: char| c as u8) =~= s@.subrange(
                        0,
                        i as int,
                    ).map_values(|c: char| c as u8).push(s@[i as int] as u8));
                }
            }
        } else {
            all_digit = false;
        }
        i = i + 1;
    }
    proof {
        assert(s@.subrange(0, n as int) =~= s@);
        assert(all_digit == spec_numeric_spec(s@));
        if all_digit {
            assert(digits@ == s@.map_values(|c: char| c as u8));
            assert(spec_all_digits(digits@)) by {
                assert(forall|j: int|
                    0 <= j < digits@.len() ==> digits@[j] == (#[trigger] s@[j]) as u8);
            }
        }
    }
    if all_digit {
        match parse_u32_digits(digits.as_slice()) {
            Some(id) => {
                match Namespace::try_from(id) {
                    Ok(ns) => Ok(ns),
                    Err(_) => Err("invalid namespace"),
                }
            },
            None => Err("invalid namespace"),
        }
    } else {
        Namespace::from_str(s)
    }
}

/// Ground facts about the name table: the length of every entry and the
/// characters that tell entries of equal length apart.
proof fn lemma_name_table_facts()
    ensures
        ""@.len() == 0,
        "appendix"@.len() == 8,
        "appendix talk"@.len() == 13,
        "category"@.len() == 8,
        "category talk"@.len() == 13,
        "citations"@.len() == 9,
        "citations talk"@.len() == 14,
        "concordance"@.len() == 11,
        "concordance talk"@.len() == 16,
        "file"@.len() == 4,
        "file talk"@.len() == 9,
        "gadget"@.len() == 6,
        "gadget definition"@.len() == 17,
        "gadget definition talk"@.len() == 22,
        "gadget talk"@.len() == 11,
        "help"@.len() == 4,
        "help talk"@.len() == 9,
        "index"@.len() == 5,
        "index talk"@.len() == 10,
        "main"@.len() == 4,
        "media wiki"@.len() == 10,
        "media wiki talk"@.len() == 15,
        "mediawiki"@.len() == 9,
        "mediawiki talk"@.len() == 14,
        "module"@.len() == 6,
        "module talk"@.len() == 11,
        "reconstruction"@.len() == 14,
        "reconstruction talk"@.len() == 19,
        "rhymes"@.len() == 6,
        "rhymes talk"@.len() == 11,
        "sign gloss"@.len() == 10,
        "sign gloss talk"@.len() == 15,
        "summary"@.len() == 7,
        "summary talk"@.len() == 12,
        "talk"@.len() == 4,
        "template"@.len() == 8,
        "template talk"@.len() == 13,
        "thesaurus"@.len() == 9,
        "thesaurus talk"@.len() == 14,
        "thread"@.len() == 6,
        "thread talk"@.len() == 11,
        "transwiki"@.len() == 9,
        "transwiki talk"@.len() == 14,
        "user"@.len() == 4,
        "user talk"@.len() == 9,
        "wiktionary"@.len() == 10,
        "wiktionary talk"@.len() == 15,
        "appendix"@[0] == 'a',
        "appendix talk"@[0] == 'a',
        "category"@[0] == 'c',
        "category talk"@[0] == 'c',
        "citations"@[0] == 'c',
        "citations talk"@[0] == 'c',
        "concordance"@[0] == 'c',
        "file"@[0] == 'f',
        "file talk"@[0] == 'f',
        "gadget"@[0] == 'g',
        "gadget talk"@[0] == 'g',
        "help"@[0] == 'h',
        "help talk"@[0] == 'h',
        "index talk"@[0] == 'i',
        "main"@[0] == 'm',
        "media wiki"@[0] == 'm',
        "media wiki talk"@[0] == 'm',
        "mediawiki"@[0] == 'm',
        "mediawiki talk"@[0] == 'm',
        "module"@[0] == 'm',
        "module talk"@[0] == 'm',
        "reconstruction"@[0] == 'r',
        "rhymes"@[0] == 'r',
        "rhymes talk"@[0] == 'r',
        "sign gloss"@[0] == 's',
        "sign gloss talk"@[0] == 's',
        "talk"@[0] == 't',
        "template"@[0] == 't',
        "template talk"@[0] == 't',
        "thesaurus"@[0] == 't',
        "thesaurus"@[1] == 'h',
        "thesaurus talk"@[0] == 't',
        "thesaurus talk"@[1] == 'h',
        "thread"@[0] == 't',
        "thread talk"@[0] == 't',
        "transwiki"@[0] == 't',
        "transwiki"@[1] == 'r',
        "transwiki talk"@[0] == 't',
        "transwiki talk"@[1] == 'r',
        "user"@[0] == 'u',
        "user talk"@[0] == 'u',
        "wiktionary"@[0] == 'w',
        "wiktionary talk"@[0] == 'w',
{
    reveal_strlit("");
    reveal_strlit("appendix");
    reveal_strlit("appendix talk");
    reveal_strlit("category");
    reveal_strlit("category talk");
    reveal_strlit("citations");
    reveal_strlit("citations talk");
    reveal_strlit("concordance");
    reveal_strlit("concordance talk");
    reveal_strlit("file");
    reveal_strlit("file talk");
    reveal_strlit("gadget");
    reveal_strlit("gadget definition");
    reveal_strlit("gadget definition talk");
    reveal_strlit("gadget talk");
    reveal_strlit("help");
    reveal_strlit("help talk");
    reveal_strlit("index");
    reveal_strlit("index talk");
    reveal_strlit("main");
    reveal_strlit("media wiki");
    reveal_strlit("media wiki talk");
    reveal_strlit("mediawiki");
    reveal_strlit("mediawiki talk");
    reveal_strlit("module");
    reveal_strlit("module talk");
    reveal_strlit("reconstruction");
    reveal_strlit("reconstruction talk");
    reveal_strlit("rhymes");
    reveal_strlit("rhymes talk");
    reveal_strlit("sign gloss");
    reveal_strlit("sign gloss talk");
    reveal_strlit("summary");
    reveal_strlit("summary talk");
    reveal_strlit("talk");
    reveal_strlit("template");
    reveal_strlit("template talk");
    reveal_strlit("thesaurus");
    reveal_strlit("thesaurus talk");
    reveal_strlit("thread");
    reveal_strlit("thread talk");
    reveal_strlit("transwiki");
    reveal_strlit("transwiki talk");
    reveal_strlit("user");
    reveal_strlit("user talk");
    reveal_strlit("wiktionary");
    reveal_strlit("wiktionary talk");
}

proof fn lemma_lookup_main()
    ensures
        spec_lookup_name(spec_canonical_name(Namespace::Main)) == Some(Namespace::Main),
{
    lemma_name_table_facts();
    reveal_strlit("");
    let s = ""@;
    assert(s.len() == 0);
    assert(vstd::utf8::is_ascii_chars(s)) by {
        assert forall|j: int| 0 <= j < s.len() implies '\0' <= #[trigger] s[j] <= '\u{7f}' by {}
    }
    assert(spec_normalize_name(s) =~= ""@);
}

proof fn lemma_lookup_talk()
    ensures
        spec_lookup_name(spec_canonical_name(Namespace::Talk)) == Some(Namespace::Talk),
{
    lemma_name_table_facts();
    reveal_strlit("Talk");
    reveal_strlit("talk");
    let s = "Talk"@;
    assert(s.len() == 4);
    assert(vstd::utf8::is_ascii_chars(s)) by {
        assert forall|j: int| 0 <= j < s.len() implies '\0' <= #[trigger] s[j] <= '\u{7f}' by {}
    }
    assert(spec_normalize_name(s) =~= "talk"@);
}

proof fn lemma_lookup_user()
    ensures
        spec_lookup_name(spec_canonical_name(Namespace::User)) == Some(Namespace::User),
{
    lemma_name_table_facts();
    reveal_strlit("User");
    reveal_strlit("user");
    let s = "User"@;
    assert(s.len() == 4);
    assert(vstd::utf8::is_ascii_chars(s)) by {
        assert forall|j: int| 0 <= j < s.len() implies '\0' <= #[trigger] s[j] <= '\u{7f}' by {}
    }
    assert(spec_normalize_name(s) =~= "user"@);
}

proof fn lemma_lookup_usertalk()
    ensures
        spec_lookup_name(spec_canonical_name(Namespace::UserTalk)) == Some(Namespace::UserTalk),
{
    lemma_name_table_facts();
    reveal_strlit("User talk");
    reveal_strlit("user talk");
    let s = "User talk"@;
    assert(s.len() == 9);
    assert(vstd::utf8::is_ascii_chars(s)) by {
        assert forall|j: int| 0 <= j < s.len() implies '\0' <= #[trigger] s[j] <= '\u{7f}' by {}
    }
    assert(spec_normalize_name(s) =~= "user talk"@);
}

proof fn lemma_lookup_wiktionary()
    ensures
        spec_lookup_name(spec_canonical_name(Namespace::Wiktionary)) == Some(Namespace::Wiktionary),
{
    lemma_name_table_facts();
    reveal_strlit("Wiktionary");
    reveal_strlit("wiktionary");
    let s = "Wiktionary"@;
    assert(s.len() == 10);
    assert(vstd::utf8::is_ascii_chars(s)) by {
        assert forall|j: int| 0 <= j < s.len() implies '\0' <= #[trigger] s[j] <= '\u{7f}' by {}
    }
    assert(spec_normalize_name(s) =~= "wiktionary"@);
}

proof fn lemma_lookup_wiktionarytalk()
    ensures
        spec_lookup_name(spec_canonical_name(Namespace::WiktionaryTalk)) == Some(Namespace::WiktionaryTalk),
{
    lemma_name_table_facts();
    reveal_strlit("Wiktionary talk");
    reveal_strlit("wiktionary talk");
    let s = "Wiktionary talk"@;
    assert(s.len() == 15);
    assert(vstd::utf8::is_ascii_chars(s)) by {
        assert forall|j: int| 0 <= j < s.len() implies '\0' <= #[trigger] s[j] <= '\u{7f}' by {}
    }
    assert(spec_normalize_name(s) =~= "wiktionary talk"@);
}

proof fn lemma_lookup_file()
    ensures
        spec_lookup_name(spec_canonical_name(Namespace::File)) == Some(Namespace::File),
{
    lemma_name_table_facts();
    reveal_strlit("File");
    reveal_strlit("file");
    let s = "File"@;
    assert(s.len() == 4);
    assert(vstd::utf8::is_ascii_chars(s)) by {
        assert forall|j: int| 0 <= j < s.len() implies '\0' <= #[trigger] s[j] <= '\u{7f}' by {}
    }
    assert(spec_normalize_name(s) =~= "file"@);
}

proof fn lemma_lookup_filetalk()
    ensures
        spec_lookup_name(spec_canonical_name(Namespace::FileTalk)) == Some(Namespace::FileTalk),
{
    lemma_name_table_facts();
    reveal_strlit("File talk");
    reveal_strlit("file talk");
    let s = "File talk"@;
    assert(s.len() == 9);
    assert(vstd::utf8::is_ascii_chars(s)) by {
        assert forall|j: int| 0 <= j < s.len() implies '\0' <= #[trigger] s[j] <= '\u{7f}' by {}
    }
    assert(spec_normalize_name(s) =~= "file talk"@);
}

proof fn lemma_lookup_mediawiki()
    ensures
        spec_lookup_name(spec_canonical_name(Namespace::MediaWiki)) == Some(Namespace::MediaWiki),
{
    lemma_name_table_facts();
    reveal_strlit("MediaWiki");
    reveal_strlit("mediawiki");
    let s = "MediaWiki"@;
    assert(s.len() == 9);
    assert(vstd::utf8::is_ascii_chars(s)) by {
        assert forall|j: int| 0 <= j < s.len() implies '\0' <= #[trigger] s[j] <= '\u{7f}' by {}
    }
    assert(spec_normalize_name(s) =~= "mediawiki"@);
}

proof fn lemma_lookup_mediawikitalk()
    ensures
        spec_lookup_name(spec_canonical_name(Namespace::MediaWikiTalk)) == Some(Namespace::MediaWikiTalk),
{
    lemma_name_table_facts();
    reveal_strlit("MediaWiki talk");
    reveal_strlit("mediawiki talk");
    let s = "MediaWiki talk"@;
    assert(s.len() == 14);
    assert(vstd::utf8::is_ascii_chars(s)) by {
        assert forall|j: int| 0 <= j < s.len() implies '\0' <= #[trigger] s[j] <= '\u{7f}' by {}
    }
    assert(spec_normalize_name(s) =~= "mediawiki talk"@);
}

proof fn lemma_lookup_template()
    ensures
        spec_lookup_name(spec_canonical_name(Namespace::Template)) == Some(Namespace::Template),
{
    lemma_name_table_facts();
    reveal_strlit("Template");
    reveal_strlit("template");
    let s = "Template"@;
    assert(s.len() == 8);
    assert(vstd::utf8::is_ascii_chars(s)) by {
        assert forall|j: int| 0 <= j < s.len() implies '\0' <= #[trigger] s[j] <= '\u{7f}' by {}
    }
    assert(spec_normalize_name(s) =~= "template"@);
}

proof fn lemma_lookup_templatetalk()
    ensures
        spec_lookup_name(spec_canonical_name(Namespace::TemplateTalk)) == Some(Namespace::TemplateTalk),
{
    lemma_name_table_facts();
    reveal_strlit("Template talk");
    reveal_strlit("template talk");
    let s = "Template talk"@;
    assert(s.len() == 13);
    assert(vstd::utf8::is_ascii_chars(s)) by {
        assert forall|j: int| 0 <= j < s.len() implies '\0' <= #[trigger] s[j] <= '\u{7f}' by {}
    }
    assert(spec_normalize_name(s) =~= "template talk"@);
}

proof fn lemma_lookup_help()
    ensures
        spec_lookup_name(spec_canonical_name(Namespace::Help)) == Some(Namespace::Help),
{
    lemma_name_table_facts();
    reveal_strlit("Help");
    reveal_strlit("help");
    let s = "Help"@;
    assert(s.len() == 4);
    assert(vstd::utf8::is_ascii_chars(s)) by {
        assert forall|j: int| 0 <= j < s.len() implies '\0' <= #[trigger] s[j] <= '\u{7f}' by {}
    }
    assert(spec_normalize_name(s) =~= "help"@);
}

proof fn lemma_lookup_helptalk()
    ensures
        spec_lookup_name(spec_canonical_name(Namespace::HelpTalk)) == Some(Namespace::HelpTalk),
{
    lemma_name_table_facts();
    reveal_strlit("Help talk");
    reveal_strlit("help talk");
    let s = "Help talk"@;
    assert(s.len() == 9);
    assert(vstd::utf8::is_ascii_chars(s)) by {
        assert forall|j: int| 0 <= j < s.len() implies '\0' <= #[trigger] s[j] <= '\u{7f}' by {}
    }
    assert(spec_normalize_name(s) =~= "help talk"@);
}

proof fn lemma_lookup_category()
    ensures
        spec_lookup_name(spec_canonical_name(Namespace::Category)) == Some(Namespace::Category),
{
    lemma_name_table_facts();
    reveal_strlit("Category");
    reveal_strlit("category");
    let s = "Category"@;
    assert(s.len() == 8);
    assert(vstd::utf8::is_ascii_chars(s)) by {
        assert forall|j: int| 0 <= j < s.len() implies '\0' <= #[trigger] s[j] <= '\u{7f}' by {}
    }
    assert(spec_normalize_name(s) =~= "category"@);
}

proof fn lemma_lookup_categorytalk()
    ensures
        spec_lookup_name(spec_canonical_name(Namespace::CategoryTalk)) == Some(Namespace::CategoryTalk),
{
    lemma_name_table_facts();
    reveal_strlit("Category talk");
    reveal_strlit("category talk");
    let s = "Category talk"@;
    assert(s.len() == 13);
    assert(vstd::utf8::is_ascii_chars(s)) by {
        assert forall|j: int| 0 <= j < s.len() implies '\0' <= #[trigger] s[j] <= '\u{7f}' by {}
    }
    assert(spec_normalize_name(s) =~= "category talk"@);
}

proof fn lemma_lookup_thread()
    ensures
        spec_lookup_name(spec_canonical_name(Namespace::Thread)) == Some(Namespace::Thread),
{
    lemma_name_table_facts();
    reveal_strlit("Thread");
    reveal_strlit("thread");
    let s = "Thread"@;
    assert(s.len() == 6);
    assert(vstd::utf8::is_ascii_chars(s)) by {
        assert forall|j: int| 0 <= j < s.len() implies '\0' <= #[trigger] s[j] <= '\u{7f}' by {}
    }
    assert(spec_normalize_name(s) =~= "thread"@);
}

proof fn lemma_lookup_threadtalk()
    ensures
        spec_lookup_name(spec_canonical_name(Namespace::ThreadTalk)) == Some(Namespace::ThreadTalk),
{
    lemma_name_table_facts();
    reveal_strlit("Thread talk");
    reveal_strlit("thread talk");
    let s = "Thread talk"@;
    assert(s.len() == 11);
    assert(vstd::utf8::is_ascii_chars(s)) by {
        assert forall|j: int| 0 <= j < s.len() implies '\0' <= #[trigger] s[j] <= '\u{7f}' by {}
    }
    assert(spec_normalize_name(s) =~= "thread talk"@);
}

proof fn lemma_lookup_summary()
    ensures
        spec_lookup_name(spec_canonical_name(Namespace::Summary)) == Some(Namespace::Summary),
{
    lemma_name_table_facts();
    reveal_strlit("Summary");
    reveal_strlit("summary");
    let s = "Summary"@;
    assert(s.len() == 7);
    assert(vstd::utf8::is_ascii_chars(s)) by {
        assert forall|j: int| 0 <= j < s.len() implies '\0' <= #[trigger] s[j] <= '\u{7f}' by {}
    }
    assert(spec_normalize_name(s) =~= "summary"@);
}

proof fn lemma_lookup_summarytalk()
    ensures
        spec_lookup_name(spec_canonical_name(Namespace::SummaryTalk)) == Some(Namespace::SummaryTalk),
{
    lemma_name_table_facts();
    reveal_strlit("Summary talk");
    reveal_strlit("summary talk");
    let s = "Summary talk"@;
    assert(s.len() == 12);
    assert(vstd::utf8::is_ascii_chars(s)) by {
        assert forall|j: int| 0 <= j < s.len() implies '\0' <= #[trigger] s[j] <= '\u{7f}' by {}
    }
    assert(spec_normalize_name(s) =~= "summary talk"@);
}

proof fn lemma_lookup_appendix()
    ensures
        spec_lookup_name(spec_canonical_name(Namespace::Appendix)) == Some(Namespace::Appendix),
{
    lemma_name_table_facts();
    reveal_strlit("Appendix");
    reveal_strlit("appendix");
    let s = "Appendix"@;
    assert(s.len() == 8);
    assert(vstd::utf8::is_ascii_chars(s)) by {
        assert forall|j: int| 0 <= j < s.len() implies '\0' <= #[trigger] s[j] <= '\u{7f}' by {}
    }
    assert(spec_normalize_name(s) =~= "appendix"@);
}

proof fn lemma_lookup_appendixtalk()
    ensures
        spec_lookup_name(spec_canonical_name(Namespace::AppendixTalk)) == Some(Namespace::AppendixTalk),
{
    lemma_name_table_facts();
    reveal_strlit("Appendix talk");
    reveal_strlit("appendix talk");
    let s = "Appendix talk"@;
    assert(s.len() == 13);
    assert(vstd::utf8::is_ascii_chars(s)) by {
        assert forall|j: int| 0 <= j < s.len() implies '\0' <= #[trigger] s[j] <= '\u{7f}' by {}
    }
    assert(spec_normalize_name(s) =~= "appendix talk"@);
}

proof fn lemma_lookup_concordance()
    ensures
        spec_lookup_name(spec_canonical_name(Namespace::Concordance)) == Some(Namespace::Concordance),
{
    lemma_name_table_facts();
    reveal_strlit("Concordance");
    reveal_strlit("concordance");
    let s = "Concordance"@;
    assert(s.len() == 11);
    assert(vstd::utf8::is_ascii_chars(s)) by {
        assert forall|j: int| 0 <= j < s.len() implies '\0' <= #[trigger] s[j] <= '\u{7f}' by {}
    }
    assert(spec_normalize_name(s) =~= "concordance"@);
}

proof fn lemma_lookup_concordancetalk()
    ensures
        spec_lookup_name(spec_canonical_name(Namespace::ConcordanceTalk)) == Some(Namespace::ConcordanceTalk),
{
    lemma_name_table_facts();
    reveal_strlit("Concordance talk");
    reveal_strlit("concordance talk");
    let s = "Concordance talk"@;
    assert(s.len() == 16);
    assert(vstd::utf8::is_ascii_chars(s)) by {
        assert forall|j: int| 0 <= j < s.len() implies '\0' <= #[trigger] s[j] <= '\u{7f}' by {}
    }
    assert(spec_normalize_name(s) =~= "concordance talk"@);
}

proof fn lemma_lookup_index()
    ensures
        spec_lookup_name(spec_canonical_name(Namespace::Index)) == Some(Namespace::Index),
{
    lemma_name_table_facts();
    reveal_strlit("Index");
    reveal_strlit("index");
    let s = "Index"@;
    assert(s.len() == 5);
    assert(vstd::utf8::is_ascii_chars(s)) by {
        assert forall|j: int| 0 <= j < s.len() implies '\0' <= #[trigger] s[j] <= '\u{7f}' by {}
    }
    assert(spec_normalize_name(s) =~= "index"@);
}

proof fn lemma_lookup_indextalk()
    ensures
        spec_lookup_name(spec_canonical_name(Namespace::IndexTalk)) == Some(Namespace::IndexTalk),
{
    lemma_name_table_facts();
    reveal_strlit("Index talk");
    reveal_strlit("index talk");
    let s = "Index talk"@;
    assert(s.len() == 10);
    assert(vstd::utf8::is_ascii_chars(s)) by {
        assert forall|j: int| 0 <= j < s.len() implies '\0' <= #[trigger] s[j] <= '\u{7f}' by {}
    }
    assert(spec_normalize_name(s) =~= "index talk"@);
}

proof fn lemma_lookup_rhymes()
    ensures
        spec_lookup_name(spec_canonical_name(Namespace::Rhymes)) == Some(Namespace::Rhymes),
{
    lemma_name_table_facts();
    reveal_strlit("Rhymes");
    reveal_strlit("rhymes");
    let s = "Rhymes"@;
    assert(s.len() == 6);
    assert(vstd::utf8::is_ascii_chars(s)) by {
        assert forall|j: int| 0 <= j < s.len() implies '\0' <= #[trigger] s[j] <= '\u{7f}' by {}
    }
    assert(spec_normalize_name(s) =~= "rhymes"@);
}

proof fn lemma_lookup_rhymestalk()
    ensures
        spec_lookup_name(spec_canonical_name(Namespace::RhymesTalk)) == Some(Namespace::RhymesTalk),
{
    lemma_name_table_facts();
    reveal_strlit("Rhymes talk");
    reveal_strlit("rhymes talk");
    let s = "Rhymes talk"@;
    assert(s.len() == 11);
    assert(vstd::utf8::is_ascii_chars(s)) by {
        assert forall|j: int| 0 <= j < s.len() implies '\0' <= #[trigger] s[j] <= '\u{7f}' by {}
    }
    assert(spec_normalize_name(s) =~= "rhymes talk"@);
}

proof fn lemma_lookup_transwiki()
    ensures
        spec_lookup_name(spec_canonical_name(Namespace::Transwiki)) == Some(Namespace::Transwiki),
{
    lemma_name_table_facts();
    reveal_strlit("Transwiki");
    reveal_strlit("transwiki");
    let s = "Transwiki"@;
    assert(s.len() == 9);
    assert(vstd::utf8::is_ascii_chars(s)) by {
        assert forall|j: int| 0 <= j < s.len() implies '\0' <= #[trigger] s[j] <= '\u{7f}' by {}
    }
    assert(spec_normalize_name(s) =~= "transwiki"@);
}

proof fn lemma_lookup_transwikitalk()
    ensures
        spec_lookup_name(spec_canonical_name(Namespace::TranswikiTalk)) == Some(Namespace::TranswikiTalk),
{
    lemma_name_table_facts();
    reveal_strlit("Transwiki talk");
    reveal_strlit("transwiki talk");
    let s = "Transwiki talk"@;
    assert(s.len() == 14);
    assert(vstd::utf8::is_ascii_chars(s)) by {
        assert forall|j: int| 0 <= j < s.len() implies '\0' <= #[trigger] s[j] <= '\u{7f}' by {}
    }
    assert(spec_normalize_name(s) =~= "transwiki talk"@);
}

proof fn lemma_lookup_thesaurus()
    ensures
        spec_lookup_name(spec_canonical_name(Namespace::Thesaurus)) == Some(Namespace::Thesaurus),
{
    lemma_name_table_facts();
    reveal_strlit("Thesaurus");
    reveal_strlit("thesaurus");
    let s = "Thesaurus"@;
    assert(s.len() == 9);
    assert(vstd::utf8::is_ascii_chars(s)) by {
        assert forall|j: int| 0 <= j < s.len() implies '\0' <= #[trigger] s[j] <= '\u{7f}' by {}
    }
    assert(spec_normalize_name(s) =~= "thesaurus"@);
}

proof fn lemma_lookup_thesaurustalk()
    ensures
        spec_lookup_name(spec_canonical_name(Namespace::ThesaurusTalk)) == Some(Namespace::ThesaurusTalk),
{
    lemma_name_table_facts();
    reveal_strlit("Thesaurus talk");
    reveal_strlit("thesaurus talk");
    let s = "Thesaurus talk"@;
    assert(s.len() == 14);
    assert(vstd::utf8::is_ascii_chars(s)) by {
        assert forall|j: int| 0 <= j < s.len() implies '\0' <= #[trigger] s[j] <= '\u{7f}' by {}
    }
    assert(spec_normalize_name(s) =~= "thesaurus talk"@);
}

proof fn lemma_lookup_citations()
    ensures
        spec_lookup_name(spec_canonical_name(Namespace::Citations)) == Some(Namespace::Citations),
{
    lemma_name_table_facts();
    reveal_strlit("Citations");
    reveal_strlit("citations");
    let s = "Citations"@;
    assert(s.len() == 9);
    assert(vstd::utf8::is_ascii_chars(s)) by {
        assert forall|j: int| 0 <= j < s.len() implies '\0' <= #[trigger] s[j] <= '\u{7f}' by {}
    }
    assert(spec_normalize_name(s) =~= "citations"@);
}

proof fn lemma_lookup_citationstalk()
    ensures
        spec_lookup_name(spec_canonical_name(Namespace::CitationsTalk)) == Some(Namespace::CitationsTalk),
{
    lemma_name_table_facts();
    reveal_strlit("Citations talk");
    reveal_strlit("citations talk");
    let s = "Citations talk"@;
    assert(s.len() == 14);
    assert(vstd::utf8::is_ascii_chars(s)) by {
        assert forall|j: int| 0 <= j < s.len() implies '\0' <= #[trigger] s[j] <= '\u{7f}' by {}
    }
    assert(spec_normalize_name(s) =~= "citations talk"@);
}

proof fn lemma_lookup_signgloss()
    ensures
        spec_lookup_name(spec_canonical_name(Namespace::SignGloss)) == Some(Namespace::SignGloss),
{
    lemma_name_table_facts();
    reveal_strlit("Sign gloss");
    reveal_strlit("sign gloss");
    let s = "Sign gloss"@;
    assert(s.len() == 10);
    assert(vstd::utf8::is_ascii_chars(s)) by {
        assert forall|j: int| 0 <= j < s.len() implies '\0' <= #[trigger] s[j] <= '\u{7f}' by {}
    }
    assert(spec_normalize_name(s) =~= "sign gloss"@);
}

proof fn lemma_lookup_signglosstalk()
    ensures
        spec_lookup_name(spec_canonical_name(Namespace::SignGlossTalk)) == Some(Namespace::SignGlossTalk),
{
    lemma_name_table_facts();
    reveal_strlit("Sign gloss talk");
    reveal_strlit("sign gloss talk");
    let s = "Sign gloss talk"@;
    assert(s.len() == 15);
    assert(vstd::utf8::is_ascii_chars(s)) by {
        assert forall|j: int| 0 <= j < s.len() implies '\0' <= #[trigger] s[j] <= '\u{7f}' by {}
    }
    assert(spec_normalize_name(s) =~= "sign gloss talk"@);
}

proof fn lemma_lookup_reconstruction()
    ensures
        spec_lookup_name(spec_canonical_name(Namespace::Reconstruction)) == Some(Namespace::Reconstruction),
{
    lemma_name_table_facts();
    reveal_strlit("Reconstruction");
    reveal_strlit("reconstruction");
    let s = "Reconstruction"@;
    assert(s.len() == 14);
    assert(vstd::utf8::is_ascii_chars(s)) by {
        assert forall|j: int| 0 <= j < s.len() implies '\0' <= #[trigger] s[j] <= '\u{7f}' by {}
    }
    assert(spec_normalize_name(s) =~= "reconstruction"@);
}

proof fn lemma_lookup_reconstructiontalk()
    ensures
        spec_lookup_name(spec_canonical_name(Namespace::ReconstructionTalk)) == Some(Namespace::ReconstructionTalk),
{
    lemma_name_table_facts();
    reveal_strlit("Reconstruction talk");
    reveal_strlit("reconstruction talk");
    let s = "Reconstruction talk"@;
    assert(s.len() == 19);
    assert(vstd::utf8::is_ascii_chars(s)) by {
        assert forall|j: int| 0 <= j < s.len() implies '\0' <= #[trigger] s[j] <= '\u{7f}' by {}
    }
    assert(spec_normalize_name(s) =~= "reconstruction talk"@);
}

proof fn lemma_lookup_module()
    ensures
        spec_lookup_name(spec_canonical_name(Namespace::Module)) == Some(Namespace::Module),
{
    lemma_name_table_facts();
    reveal_strlit("Module");
    reveal_strlit("module");
    let s = "Module"@;
    assert(s.len() == 6);
    assert(vstd::utf8::is_ascii_chars(s)) by {
        assert forall|j: int| 0 <= j < s.len() implies '\0' <= #[trigger] s[j] <= '\u{7f}' by {}
    }
    assert(spec_normalize_name(s) =~= "module"@);
}

proof fn lemma_lookup_moduletalk()
    ensures
        spec_lookup_name(spec_canonical_name(Namespace::ModuleTalk)) == Some(Namespace::ModuleTalk),
{
    lemma_name_table_facts();
    reveal_strlit("Module talk");
    reveal_strlit("module talk");
    let s = "Module talk"@;
    assert(s.len() == 11);
    assert(vstd::utf8::is_ascii_chars(s)) by {
        assert forall|j: int| 0 <= j < s.len() implies '\0' <= #[trigger] s[j] <= '\u{7f}' by {}
    }
    assert(spec_normalize_name(s) =~= "module talk"@);
}

proof fn lemma_lookup_gadget()
    ensures
        spec_lookup_name(spec_canonical_name(Namespace::Gadget)) == Some(Namespace::Gadget),
{
    lemma_name_table_facts();
    reveal_strlit("Gadget");
    reveal_strlit("gadget");
    let s = "Gadget"@;
    assert(s.len() == 6);
    assert(vstd::utf8::is_ascii_chars(s)) by {
        assert forall|j: int| 0 <= j < s.len() implies '\0' <= #[trigger] s[j] <= '\u{7f}' by {}
    }
    assert(spec_normalize_name(s) =~= "gadget"@);
}

proof fn lemma_lookup_gadgettalk()
    ensures
        spec_lookup_name(spec_canonical_name(Namespace::GadgetTalk)) == Some(Namespace::GadgetTalk),
{
    lemma_name_table_facts();
    reveal_strlit("Gadget talk");
    reveal_strlit("gadget talk");
    let s = "Gadget talk"@;
    assert(s.len() == 11);
    assert(vstd::utf8::is_ascii_chars(s)) by {
        assert forall|j: int| 0 <= j < s.len() implies '\0' <= #[trigger] s[j] <= '\u{7f}' by {}
    }
    assert(spec_normalize_name(s) =~= "gadget talk"@);
}

proof fn lemma_lookup_gadgetdefinition()
    ensures
        spec_lookup_name(spec_canonical_name(Namespace::GadgetDefinition)) == Some(Namespace::GadgetDefinition),
{
    lemma_name_table_facts();
    reveal_strlit("Gadget definition");
    reveal_strlit("gadget definition");
    let s = "Gadget definition"@;
    assert(s.len() == 17);
    assert(vstd::utf8::is_ascii_chars(s)) by {
        assert forall|j: int| 0 <= j < s.len() implies '\0' <= #[trigger] s[j] <= '\u{7f}' by {}
    }
    assert(spec_normalize_name(s) =~= "gadget definition"@);
}

proof fn lemma_lookup_gadgetdefinitiontalk()
    ensures
        spec_lookup_name(spec_canonical_name(Namespace::GadgetDefinitionTalk)) == Some(Namespace::GadgetDefinitionTalk),
{
    lemma_name_table_facts();
    reveal_strlit("Gadget definition talk");
    reveal_strlit("gadget definition talk");
    let s = "Gadget definition talk"@;
    assert(s.len() == 22);
    assert(vstd::utf8::is_ascii_chars(s)) by {
        assert forall|j: int| 0 <= j < s.len() implies '\0' <= #[trigger] s[j] <= '\u{7f}' by {}
    }
    assert(spec_normalize_name(s) =~= "gadget definition talk"@);
}

/// Namespace round trip, identifier direction: looking up the identifier
/// of any namespace finds that namespace again, and an identifier outside
/// the known set is reported as unknown, never mapped to a default.
pub proof fn lemma_namespace_id_round_trip()
    ensures
        forall|n: Namespace| #[trigger] spec_from_id(spec_id(n)) == Some(n),
        forall|id: u32| #[trigger] spec_from_id(id) is Some ==> spec_id(spec_from_id(id)->0)
            == id,
{
}

/// Namespace round trip, name direction: looking up the canonical name
/// of any namespace finds that namespace again.
pub proof fn lemma_namespace_name_round_trip()
    ensures
        forall|n: Namespace| #[trigger] spec_lookup_name(spec_canonical_name(n)) == Some(n),
{
    assert forall|n: Namespace| #[trigger] spec_lookup_name(spec_canonical_name(n)) == Some(
        n,
    ) by {
        match n {
            Namespace::Main => lemma_lookup_main(),
            Namespace::Talk => lemma_lookup_talk(),
            Namespace::User => lemma_lookup_user(),
            Namespace::UserTalk => lemma_lookup_usertalk(),
            Namespace::Wiktionary => lemma_lookup_wiktionary(),
            Namespace::WiktionaryTalk => lemma_lookup_wiktionarytalk(),
            Namespace::File => lemma_lookup_file(),
            Namespace::FileTalk => lemma_lookup_filetalk(),
            Namespace::MediaWiki => lemma_lookup_mediawiki(),
            Namespace::MediaWikiTalk => lemma_lookup_mediawikitalk(),
            Namespace::Template => lemma_lookup_template(),
            Namespace::TemplateTalk => lemma_lookup_templatetalk(),
            Namespace::Help => lemma_lookup_help(),
            Namespace::HelpTalk => lemma_lookup_helptalk(),
            Namespace::Category => lemma_lookup_category(),
            Namespace::CategoryTalk => lemma_lookup_categorytalk(),
            Namespace::Thread => lemma_lookup_thread(),
            Namespace::ThreadTalk => lemma_lookup_threadtalk(),
            Namespace::Summary => lemma_lookup_summary(),
            Namespace::SummaryTalk => lemma_lookup_summarytalk(),
            Namespace::Appendix => lemma_lookup_appendix(),
            Namespace::AppendixTalk => lemma_lookup_appendixtalk(),
            Namespace::Concordance => lemma_lookup_concordance(),
            Namespace::ConcordanceTalk => lemma_lookup_concordancetalk(),
            Namespace::Index => lemma_lookup_index(),
            Namespace::IndexTalk => lemma_lookup_indextalk(),
            Namespace::Rhymes => lemma_lookup_rhymes(),
            Namespace::RhymesTalk => lemma_lookup_rhymestalk(),
            Namespace::Transwiki => lemma_lookup_transwiki(),
            Namespace::TranswikiTalk => lemma_lookup_transwikitalk(),
            Namespace::Thesaurus => lemma_lookup_thesaurus(),
            Namespace::ThesaurusTalk => lemma_lookup_thesaurustalk(),
            Namespace::Citations => lemma_lookup_citations(),
            Namespace::CitationsTalk => lemma_lookup_citationstalk(),
            Namespace::SignGloss => lemma_lookup_signgloss(),
            Namespace::SignGlossTalk => lemma_lookup_signglosstalk(),
            Namespace::Reconstruction => lemma_lookup_reconstruction(),
            Namespace::ReconstructionTalk => lemma_lookup_reconstructiontalk(),
            Namespace::Module => lemma_lookup_module(),
            Namespace::ModuleTalk => lemma_lookup_moduletalk(),
            Namespace::Gadget => lemma_lookup_gadget(),
            Namespace::GadgetTalk => lemma_lookup_gadgettalk(),
            Namespace::GadgetDefinition => lemma_lookup_gadgetdefinition(),
            Namespace::GadgetDefinitionTalk => lemma_lookup_gadgetdefinitiontalk(),
        }
    }
}

} // verus!
