//! End-of-run summary: completion or graceful stop, thanks, and issue reporting.

use vstd::prelude::*;

use crate::report::{glue, no_texts, say};
use crate::startup;
use crate::startup::{PKG_NAME, PKG_REPOSITORY, PRODUCT_OF, XSAR_WEBSITE};
use crate::text;
use crate::text::{chars_of, slice_contains, slice_strip_right, string_of, CharClass};

use vstd::string::StringExecFns;

verus! {

/// Where issues of a repository are reported: its issues page on GitHub, the
/// repository elsewhere, and the website where there is no repository.
pub open spec fn issues_address(repository: Seq<char>) -> Seq<char> {
    let repo = text::strip_right(repository, CharClass::Only('/'));
    if repo.len() == 0 {
        startup::XSAR_WEBSITE@
    } else if text::contains_text(repo, "github.com"@) {
        repo + "/issues"@
    } else {
        repo
    }
}

/// Build the address for issues from a repository address.
pub fn issues_url(repository: &str) -> (r: String)
    ensures
        r@ == issues_address(repository@),
{
    let all = chars_of(repository);
    let repo = slice_strip_right(all.as_slice(), CharClass::Only('/'));
    if repo.len() == 0 {
        return XSAR_WEBSITE.to_string();
    }
    let host = chars_of("github.com");
    let r = string_of(repo);
    if slice_contains(repo, host.as_slice()) {
        glue(r.as_str(), "/issues")
    } else {
        r
    }
}

/// The lines of the final summary.
pub open spec fn summary_text(stopped_early: bool) -> Seq<Seq<char>> {
    (if stopped_early {
        seq![
            ""@,
            "⏹  Cache maintenance stopped by user (graceful)."@,
            "   In-flight workers were allowed to finish; no new files were started."@,
        ]
    } else {
        seq![""@, "✅ Cache maintenance complete!"@]
    }) + seq![
        "   (Because the storage is write-through, no separate cache-clear step is required or executed.)"@,
        ""@,
        "Thanks for using "@ + PKG_NAME@ + " — a product of "@ + PRODUCT_OF@ + "."@,
        "Website: "@ + XSAR_WEBSITE@,
        "Raise issues or feature requests: "@ + issues_address(PKG_REPOSITORY@),
        "Source: "@ + PKG_REPOSITORY@,
    ]
}

/// The final summary after maintenance finishes or is stopped early.
pub fn exit_summary_lines(stopped_early: bool) -> (v: Vec<String>)
    ensures
        text::texts(v@) == summary_text(stopped_early),
{
    let mut v = no_texts();
    say(&mut v, "");
    if stopped_early {
        say(&mut v, "⏹  Cache maintenance stopped by user (graceful).");
        say(&mut v, "   In-flight workers were allowed to finish; no new files were started.");
    } else {
        say(&mut v, "✅ Cache maintenance complete!");
    }
    let ghost head = text::texts(v@);
    say(
        &mut v,
        "   (Because the storage is write-through, no separate cache-clear step is required or executed.)",
    );
    say(&mut v, "");
    let mut thanks = "Thanks for using ".to_string();
    thanks.append(PKG_NAME);
    thanks.append(" — a product of ");
    thanks.append(PRODUCT_OF);
    thanks.append(".");
    say(&mut v, thanks.as_str());
    say(&mut v, glue("Website: ", XSAR_WEBSITE).as_str());
    say(
        &mut v,
        glue("Raise issues or feature requests: ", issues_url(PKG_REPOSITORY).as_str()).as_str(),
    );
    say(&mut v, glue("Source: ", PKG_REPOSITORY).as_str());
    assert(text::texts(v@) == summary_text(stopped_early));
    v
}

/// Slashes at the end of a repository's address do not matter. On GitHub its issues page
/// is meant, elsewhere the repository itself, and without a repository the website.
pub proof fn law_issues_address(repo: Seq<char>, slashes: Seq<char>)
    requires
        repo.len() > 0 ==> repo.last() != '/',
        forall|i: int| 0 <= i < slashes.len() ==> #[trigger] slashes[i] == '/',
    ensures
        repo.len() == 0 ==> issues_address(repo + slashes) == XSAR_WEBSITE@,
        repo.len() > 0 && (exists|a: Seq<char>, b: Seq<char>|
            repo == #[trigger] (a + "github.com"@ + b)) ==> issues_address(repo + slashes) == repo
            + "/issues"@,
        repo.len() > 0 && !(exists|a: Seq<char>, b: Seq<char>|
            repo == #[trigger] (a + "github.com"@ + b)) ==> issues_address(repo + slashes) == repo,
{
    text::law_occurrence(repo, "github.com"@, 0);
    lemma_slashes_go(repo, slashes);
}

proof fn lemma_slashes_go(repo: Seq<char>, slashes: Seq<char>)
    requires
        repo.len() > 0 ==> repo.last() != '/',
        forall|i: int| 0 <= i < slashes.len() ==> #[trigger] slashes[i] == '/',
    ensures
        text::strip_right(repo + slashes, CharClass::Only('/')) == repo,
    decreases slashes.len(),
{
    let s = repo + slashes;
    if slashes.len() > 0 {
        assert(slashes.last() == '/');
        assert(s.last() == '/');
        assert(s.drop_last() == repo + slashes.drop_last());
        lemma_slashes_go(repo, slashes.drop_last());
    } else {
        assert(s == repo);
    }
}

/// The summary says of a run that was stopped that it was, and of no other; either way it
/// names the website, the place for issues and the source.
pub proof fn law_summary_tells_how_it_ended(stopped_early: bool)
    ensures
        summary_text(stopped_early).contains(
            "⏹  Cache maintenance stopped by user (graceful)."@,
        ) || !stopped_early,
        summary_text(stopped_early).contains("✅ Cache maintenance complete!"@) || stopped_early,
        stopped_early ==> summary_text(stopped_early)[1]
            == "⏹  Cache maintenance stopped by user (graceful)."@,
        !stopped_early ==> summary_text(stopped_early)[1] == "✅ Cache maintenance complete!"@,
        summary_text(stopped_early).contains("Website: "@ + XSAR_WEBSITE@),
        summary_text(stopped_early).contains(
            "Raise issues or feature requests: "@ + issues_address(PKG_REPOSITORY@),
        ),
        summary_text(stopped_early).last() == "Source: "@ + PKG_REPOSITORY@,
{
    let t = summary_text(stopped_early);
    let n = t.len();
    assert(t[n - 1] == "Source: "@ + PKG_REPOSITORY@);
    assert(t[n - 2] == "Raise issues or feature requests: "@ + issues_address(PKG_REPOSITORY@));
    assert(t[n - 3] == "Website: "@ + XSAR_WEBSITE@);
    assert(t.contains(t[1]));
}

} // verus!
