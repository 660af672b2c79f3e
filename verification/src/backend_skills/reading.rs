//! The reading of a skill's main prompt.
use vstd::prelude::*;
use super::catalog::entry_of;
use super::catalog::main_prompt_of;
use super::catalog::main_prompt_uri;
use super::catalog::BackendResource;
use super::catalog::SkillAuthority;
use super::catalog::SkillSourceKind;
use super::listing::BackendSkillProvider;
use super::listing::SkillProviderError;
use crate::text::chars::chars_of;
use crate::text::chars::is_text;
use crate::text::chars::push_text;
use crate::text::chars::same_text;
use crate::text::chars::string_of;

verus! {

/// What a backend returns for a resource.
#[derive(Debug, Clone, PartialEq, Eq)]
pub enum ResourceContent {
    /// A text.
    Text {
        /// The address of the text.
        uri: String,
        /// The text.
        text: String,
    },
    /// Bytes.
    Blob,
}

/// A skill's main prompt that is to be read.
#[derive(Debug, Clone, PartialEq, Eq)]
pub struct SkillReadRequest {
    /// Who is to answer for it.
    pub authority: SkillAuthority,
    /// The package.
    pub package: String,
    /// The address.
    pub resource: String,
}

/// What was read.
#[derive(Debug, Clone, PartialEq, Eq)]
pub struct SkillReadResult {
    /// The address.
    pub resource: String,
    /// The text.
    pub contents: String,
}

/// Why a request cannot be answered.
pub open spec fn read_refusal(
    server: Seq<char>,
    request: SkillReadRequest,
    connected: bool,
) -> Option<Seq<char>> {
    if request.authority.kind != SkillSourceKind::Remote || request.authority.id@ != server {
        Some("backend skill provider cannot read authority "@ + request.authority.id@)
    } else if request.resource@ != main_prompt_of(request.package@) {
        Some("backend skill resource does not match its package"@)
    } else if !connected {
        Some("session MCP resource client is not configured"@)
    } else {
        None
    }
}

fn provider_error(message: &str) -> (r: SkillProviderError)
    ensures
        r.message@ == message@,
{
    SkillProviderError { message: message.to_owned() }
}

/// Checks that a request is for the main prompt of a package of the provider's
/// own server, and that the session is connected.
pub fn check_read_request(
    provider: &BackendSkillProvider,
    request: &SkillReadRequest,
    connected: bool,
) -> (r: Result<(), SkillProviderError>)
    ensures
        match read_refusal(provider.server_name@, *request, connected) {
            Some(message) => r matches Err(e) && e.message@ == message,
            None => r is Ok,
        },
{
    if request.authority.kind != SkillSourceKind::Remote || !same_text(
        request.authority.id.as_str(),
        provider.server_name.as_str(),
    ) {
        let mut text = chars_of("backend skill provider cannot read authority ");
        push_text(&mut text, request.authority.id.as_str());
        return Err(SkillProviderError { message: string_of(&text) });
    }
    let expected = main_prompt_uri(&chars_of(request.package.as_str()));
    if !is_text(&expected, request.resource.as_str()) {
        return Err(provider_error("backend skill resource does not match its package"));
    }
    if !connected {
        return Err(provider_error("session MCP resource client is not configured"));
    }
    Ok(())
}

/// The error where a resource could not be read.
pub fn read_error(request: &SkillReadRequest, reason: &str) -> (r: SkillProviderError)
    ensures
        r.message@ == "failed to read backend skill resource "@ + request.resource@ + ": "@
            + reason@,
{
    let mut text = chars_of("failed to read backend skill resource ");
    push_text(&mut text, request.resource.as_str());
    push_text(&mut text, ": ");
    push_text(&mut text, reason);
    SkillProviderError { message: string_of(&text) }
}

/// The first text at the given address.
pub open spec fn text_at_uri(contents: Seq<ResourceContent>, uri: Seq<char>) -> Option<Seq<char>>
    decreases contents.len(),
{
    if contents.len() == 0 {
        None
    } else {
        match contents[0] {
            ResourceContent::Text { uri: u, text } if u@ == uri => Some(text@),
            _ => text_at_uri(contents.skip(1), uri),
        }
    }
}

/// What was read, out of what the backend returned: the first text at the
/// address that was asked for.
pub fn read_result(request: &SkillReadRequest, contents: &Vec<ResourceContent>) -> (r: Result<
    SkillReadResult,
    SkillProviderError,
>)
    ensures
        match text_at_uri(contents@, request.resource@) {
            Some(text) => r matches Ok(result) && result.resource@ == request.resource@
                && result.contents@ == text,
            None => r matches Err(e) && e.message@ == "backend skill resource "@ + request.resource@
                + " did not return matching text contents"@,
        },
{
    let mut i: usize = 0;
    assert(contents@.skip(0) =~= contents@);
    while i < contents.len()
        invariant
            i <= contents@.len(),
            text_at_uri(contents@, request.resource@) == text_at_uri(
                contents@.skip(i as int),
                request.resource@,
            ),
        decreases contents@.len() - i,
    {
        assert(contents@.skip(i as int)[0] == contents@[i as int]);
        assert(contents@.skip(i as int).skip(1) =~= contents@.skip(i + 1));
        if let ResourceContent::Text { uri, text } = &contents[i] {
            if same_text(uri.as_str(), request.resource.as_str()) {
                return Ok(
                    SkillReadResult { resource: request.resource.clone(), contents: text.clone() },
                );
            }
        }
        i += 1;
    }
    assert(contents@.skip(i as int).len() == 0);
    let mut text = chars_of("backend skill resource ");
    push_text(&mut text, request.resource.as_str());
    push_text(&mut text, " did not return matching text contents");
    Err(SkillProviderError { message: string_of(&text) })
}

/// A skill that a server lists can be read from that server: the request that
/// its catalog entry gives rise to is not refused.
pub proof fn law_listed_skill_can_be_read(
    resource: BackendResource,
    server: Seq<char>,
    request: SkillReadRequest,
)
    requires
        entry_of(resource, server) is Some,
        request.authority.kind == SkillSourceKind::Remote,
        request.authority.id@ == entry_of(resource, server)->0.server,
        request.package@ == entry_of(resource, server)->0.package,
        request.resource@ == entry_of(resource, server)->0.main_prompt,
    ensures
        read_refusal(server, request, true) is None,
{
}

/// A provider answers only for the main prompts of packages of its own server, and
/// only while the session is connected. What it refuses first is another authority,
/// then another resource, and last the lack of a connection.
pub proof fn law_provider_answers_for_its_own_prompts_only(
    server: Seq<char>,
    request: SkillReadRequest,
    connected: bool,
)
    ensures
        ({
            let own = request.authority.kind == SkillSourceKind::Remote && request.authority.id@
                == server;
            let prompt = request.resource@ == main_prompt_of(request.package@);
            let refusal = read_refusal(server, request, connected);
            &&& refusal is None <==> own && prompt && connected
            &&& !own ==> refusal == Some(
                "backend skill provider cannot read authority "@ + request.authority.id@,
            )
            &&& own && !prompt ==> refusal == Some(
                "backend skill resource does not match its package"@,
            )
            &&& own && prompt && !connected ==> refusal == Some(
                "session MCP resource client is not configured"@,
            )
        }),
{
}

/// Whether the content is a text at the address.
pub open spec fn is_text_at(content: ResourceContent, uri: Seq<char>) -> bool {
    content matches ResourceContent::Text { uri: u, .. } && u@ == uri
}

/// What is read is the first text at the address that was asked for, however many
/// other contents come with it; without such a text nothing is read.
pub proof fn law_first_text_at_the_address_is_read(contents: Seq<ResourceContent>, uri: Seq<char>)
    ensures
        text_at_uri(contents, uri) is None <==> forall|i: int|
            0 <= i < contents.len() ==> !is_text_at(#[trigger] contents[i], uri),
        text_at_uri(contents, uri) matches Some(text) ==> exists|i: int|
            {
                &&& 0 <= i < contents.len()
                &&& is_text_at(#[trigger] contents[i], uri)
                &&& contents[i]->text@ == text
                &&& forall|j: int| 0 <= j < i ==> !is_text_at(#[trigger] contents[j], uri)
            },
    decreases contents.len(),
{
    if contents.len() > 0 {
        let rest = contents.skip(1);
        if is_text_at(contents[0], uri) {
            assert(contents[0]->text@ == text_at_uri(contents, uri)->0);
        } else {
            law_first_text_at_the_address_is_read(rest, uri);
            assert(forall|i: int| 0 <= i < rest.len() ==> #[trigger] rest[i] == contents[i + 1]);
            assert(forall|i: int| 0 < i < contents.len() ==> #[trigger] contents[i] == rest[i - 1]);
            if let Some(text) = text_at_uri(rest, uri) {
                let k = choose|i: int|
                    {
                        &&& 0 <= i < rest.len()
                        &&& is_text_at(#[trigger] rest[i], uri)
                        &&& rest[i]->text@ == text
                        &&& forall|j: int| 0 <= j < i ==> !is_text_at(#[trigger] rest[j], uri)
                    };
                assert(is_text_at(contents[k + 1], uri));
            }
        }
    }
}

} // verus!
