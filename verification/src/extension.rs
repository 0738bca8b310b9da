//! The extension object that the editor holds for as long as the plugin is
//! loaded.

use crate::registry::{names_distinct, EntryModel, GrammarEntry, GrammarRegistry};
use vstd::prelude::*;

verus! {

/// `zed_extension_api::Command`, the editor's description of a process to
/// launch. Declared so that it can stand in a signature; nothing is claimed
/// of its contents.
#[verifier::external_type_specification]
#[verifier::external_body]
pub struct ExCommand(zed_extension_api::Command);

/// The name under which the grammar is registered.
pub const LANGUAGE_NAME: &'static str = "pluto";

/// What the editor is told when it asks for a language server.
pub const NO_LANGUAGE_SERVER: &'static str = "no language server available for this language";

/// The bytes of the grammar that ships with the extension: a WebAssembly
/// module without sections, that is the magic number and version 1.
pub open spec fn bundled_grammar_bytes() -> Seq<u8> {
    seq![0x00u8, 0x61u8, 0x73u8, 0x6du8, 0x01u8, 0x00u8, 0x00u8, 0x00u8]
}

/// The entry that an extension registers for a grammar of bytes `artifact`.
pub open spec fn pluto_entry(artifact: Seq<u8>) -> EntryModel {
    EntryModel { name: LANGUAGE_NAME@, artifact }
}

/// What a newly built extension holds: the bundled grammar, and nothing else.
pub open spec fn initial_grammars() -> Seq<EntryModel> {
    seq![pluto_entry(bundled_grammar_bytes())]
}

/// A fresh copy of the grammar that ships with the extension.
pub fn bundled_grammar() -> (bytes: Vec<u8>)
    ensures
        bytes@ == bundled_grammar_bytes(),
{
    let mut bytes: Vec<u8> = Vec::new();
    bytes.push(0x00);
    bytes.push(0x61);
    bytes.push(0x73);
    bytes.push(0x6d);
    bytes.push(0x01);
    bytes.push(0x00);
    bytes.push(0x00);
    bytes.push(0x00);
    bytes
}

/// The Pluto extension: one registry, holding the one grammar it was built
/// with. Its view is the sequence of registered entries.
#[derive(Debug)]
pub struct PlutoExtension {
    registry: GrammarRegistry,
}

impl View for PlutoExtension {
    type V = Seq<EntryModel>;

    closed spec fn view(&self) -> Seq<EntryModel> {
        self.registry@
    }
}

impl PlutoExtension {
    /// An extension whose registry holds exactly one entry: `artifact`,
    /// unchanged, under the name "pluto".
    pub fn with_grammar(artifact: Vec<u8>) -> (extension: PlutoExtension)
        ensures
            extension@ == seq![pluto_entry(artifact@)],
            extension@.len() == 1,
            extension@[0].name == "pluto"@,
            extension@[0].artifact == artifact@,
            names_distinct(extension@),
    {
        let mut registry = GrammarRegistry::new();
        registry.register(GrammarEntry::new(LANGUAGE_NAME.to_owned(), artifact));
        PlutoExtension { registry }
    }

    /// An extension whose registry holds exactly one entry: the bundled
    /// grammar under the name "pluto". Every call builds a value of its own
    /// with the same contents.
    pub fn new() -> (extension: PlutoExtension)
        ensures
            extension@ == initial_grammars(),
            extension@.len() == 1,
            extension@[0].name == "pluto"@,
            extension@[0].artifact == bundled_grammar_bytes(),
            names_distinct(extension@),
    {
        PlutoExtension::with_grammar(bundled_grammar())
    }

    /// The registry that the extension owns.
    pub fn registry(&self) -> (registry: &GrammarRegistry)
        ensures
            registry@ == self@,
    {
        &self.registry
    }

    /// Answers the editor's request for the command that starts a language
    /// server: there is none, whatever server and worktree are named. The
    /// extension is left as it was.
    pub fn language_server_command<Id: ?Sized, Tree: ?Sized>(
        &mut self,
        _language_server_id: &Id,
        _worktree: &Tree,
    ) -> (answer: Result<zed_extension_api::Command, String>)
        ensures
            answer is Err,
            answer matches Err(message) ==> message@ == NO_LANGUAGE_SERVER@,
            answer matches Err(message) ==> message@.len() > 0,
            *final(self) == *old(self),
    {
        proof {
            reveal_strlit("no language server available for this language");
        }
        Err(NO_LANGUAGE_SERVER.to_owned())
    }
}

/// However many extensions are built, each holds exactly one entry, named
/// "pluto" and carrying the bundled grammar, and any two of them hold the
/// same entries.
pub proof fn lemma_constructions_alike(built: Seq<PlutoExtension>)
    requires
        forall|k: int| 0 <= k < built.len() ==> (#[trigger] built[k])@ == initial_grammars(),
    ensures
        forall|k: int|
            0 <= k < built.len() ==> {
                &&& (#[trigger] built[k])@.len() == 1
                &&& built[k]@[0].name == "pluto"@
                &&& built[k]@[0].artifact == bundled_grammar_bytes()
                &&& names_distinct(built[k]@)
            },
        forall|j: int, k: int|
            #![trigger built[j], built[k]]
            0 <= j < built.len() && 0 <= k < built.len() ==> built[j]@ == built[k]@,
{
}

} // verus!
