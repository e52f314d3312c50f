use crate::text::blank;
use vstd::prelude::*;

verus! {

/// What every system prompt ends with: how to use a shell reliably.
pub const ANTHROPIC_MESSAGES_SHELL_RELIABILITY_INSTRUCTIONS: &'static str = "When executing shell commands, honor the shell specified in the environment context. In zsh, never put an unquoted wildcard anywhere in a command, including path operands such as `src/*.kt`; quote it or prefer `rg -g '*.kt' <pattern> <directory>`. Use `rg -g`, not `--include`. Do not use a file extension as an `rg --type` value; prefer quoted `-g` filters unless you have verified the type with `rg --type-list`. When locating source code, first search for the identifier itself across the repository instead of assuming its module, file path, or declaration syntax, for example search `AgentWsCommand` before `class AgentWsCommand`. Do not redirect stderr to `/dev/null` while locating files because it hides missing-path diagnostics. When searching Android resource identifiers, include `*.xml` files as well as source files; string resource keys commonly live in `strings.xml`. For HTTP requests, do not background the command or suppress diagnostics while waiting for its result; use `curl --fail --show-error --location`, check the exit status, and verify any output file. An exit status of 1 from `rg` or `grep` means that exact pattern had no matches, not that the requested code or behavior does not exist. Broaden the search or inspect the relevant files before concluding that no change is needed.";

/// The instructions for the shell say something.
pub proof fn lemma_instructions_are_not_blank()
    ensures
        !blank(ANTHROPIC_MESSAGES_SHELL_RELIABILITY_INSTRUCTIONS@),
{
    reveal_strlit("When executing shell commands, honor the shell specified in the environment context. In zsh, never put an unquoted wildcard anywhere in a command, including path operands such as `src/*.kt`; quote it or prefer `rg -g '*.kt' <pattern> <directory>`. Use `rg -g`, not `--include`. Do not use a file extension as an `rg --type` value; prefer quoted `-g` filters unless you have verified the type with `rg --type-list`. When locating source code, first search for the identifier itself across the repository instead of assuming its module, file path, or declaration syntax, for example search `AgentWsCommand` before `class AgentWsCommand`. Do not redirect stderr to `/dev/null` while locating files because it hides missing-path diagnostics. When searching Android resource identifiers, include `*.xml` files as well as source files; string resource keys commonly live in `strings.xml`. For HTTP requests, do not background the command or suppress diagnostics while waiting for its result; use `curl --fail --show-error --location`, check the exit status, and verify any output file. An exit status of 1 from `rg` or `grep` means that exact pattern had no matches, not that the requested code or behavior does not exist. Broaden the search or inspect the relevant files before concluding that no change is needed.");
    assert(ANTHROPIC_MESSAGES_SHELL_RELIABILITY_INSTRUCTIONS@[0] == 'W');
}

} // verus!
