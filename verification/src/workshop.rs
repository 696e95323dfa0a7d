//! Steam Workshop files: the `workshopitem` VDF script handed to SteamCMD,
//! reading values back from it, and recording a PublishedFileId in a content
//! manifest.

use vstd::prelude::*;
use crate::text::{
    index_of, lemma_index_of, lines, split_lines, joined, string_views, join_strings, trim, trim_start, has_prefix,
    has_suffix, decimal, decimal_string, str_eq, trim_str, trim_start_str, starts_with, ends_with, concat, concat3,
};
use crate::content::{ContentArtifact, steam_escaped, steam_escape, slug, slug_of};
use crate::manifest::{ContentKind, kind_label};

verus! {

/// `s` split at every `c`, as `str::split` does.
pub open spec fn split_at_char(s: Seq<char>, c: char) -> Seq<Seq<char>>
    decreases s.len(),
{
    if index_of(s, c) < 0 {
        seq![s]
    } else {
        proof {
            lemma_index_of(s, c);
        }
        seq![s.subrange(0, index_of(s, c))] + split_at_char(s.subrange(index_of(s, c) + 1, s.len() as int), c)
    }
}

proof fn lemma_split_step(s: Seq<char>, c: char, from: int, j: int)
    requires
        0 <= from <= j < s.len(),
        s[j] == c,
        forall|k: int| from <= k < j ==> s[k] != c,
    ensures
        split_at_char(s.subrange(from, s.len() as int), c)
            == seq![s.subrange(from, j)] + split_at_char(s.subrange(j + 1, s.len() as int), c),
{
    let t = s.subrange(from, s.len() as int);
    assert(t[j - from] == c);
    assert forall|k: int| 0 <= k < j - from implies t[k] != c by {
        assert(t[k] == s[from + k]);
    }
    lemma_first_char_at(t, c, j - from);
    lemma_index_of(t, c);
    assert(t.subrange(0, j - from) =~= s.subrange(from, j));
    assert(t.subrange(j - from + 1, t.len() as int) =~= s.subrange(j + 1, s.len() as int));
}

proof fn lemma_first_char_at(t: Seq<char>, c: char, j: int)
    requires
        0 <= j < t.len(),
        t[j] == c,
        forall|k: int| 0 <= k < j ==> t[k] != c,
    ensures
        index_of(t, c) == j,
    decreases j,
{
    if j > 0 {
        lemma_first_char_at(t.drop_first(), c, j - 1);
    }
}

proof fn lemma_split_none(s: Seq<char>, c: char, from: int)
    requires
        0 <= from <= s.len(),
        forall|k: int| from <= k < s.len() ==> s[k] != c,
    ensures
        split_at_char(s.subrange(from, s.len() as int), c) == seq![s.subrange(from, s.len() as int)],
{
    let t = s.subrange(from, s.len() as int);
    lemma_index_of(t, c);
    if index_of(t, c) >= 0 {
        assert(t[index_of(t, c)] == s[from + index_of(t, c)]);
    }
}

/// Split `s` at every `c`.
pub fn split_char(s: &str, c: char) -> (r: Vec<String>)
    ensures
        string_views(r@) == split_at_char(s@, c),
{
    let n = s.unicode_len();
    let mut out: Vec<String> = Vec::new();
    let mut start: usize = 0;
    let mut i: usize = 0;
    assert(s@.subrange(0, n as int) =~= s@);
    while i < n
        invariant
            n == s@.len(),
            start <= i <= n,
            forall|k: int| start <= k < i ==> s@[k] != c,
            string_views(out@) + split_at_char(s@.subrange(start as int, n as int), c) == split_at_char(s@, c),
        decreases n - i,
    {
        if s.get_char(i) == c {
            proof {
                lemma_split_step(s@, c, start as int, i as int);
            }
            let ghost before = string_views(out@);
            let part = s.substring_char(start, i);
            out.push(part.to_owned());
            proof {
                assert(string_views(out@) =~= before.push(part@));
                assert(before.push(part@) + split_at_char(s@.subrange(i + 1, n as int), c)
                    =~= before + (seq![part@] + split_at_char(s@.subrange(i + 1, n as int), c)));
            }
            start = i + 1;
        }
        i = i + 1;
    }
    proof {
        lemma_split_none(s@, c, start as int);
    }
    let ghost before = string_views(out@);
    let last = s.substring_char(start, n);
    out.push(last.to_owned());
    proof {
        assert(string_views(out@) =~= before.push(last@));
        assert(before + seq![last@] =~= before.push(last@));
    }
    out
}

/// The value of `key` on one VDF line: the fourth `"`-separated field of the
/// trimmed line when the second is `key`.
pub open spec fn vdf_line_value(line: Seq<char>, key: Seq<char>) -> Option<Seq<char>> {
    let parts = split_at_char(trim(line), '"');
    if parts.len() >= 4 && parts[1] == key {
        Some(parts[3])
    } else {
        None
    }
}

/// The value of `key` on the first VDF line of `ls` that has one.
pub open spec fn vdf_lines_value(ls: Seq<Seq<char>>, key: Seq<char>) -> Option<Seq<char>>
    decreases ls.len(),
{
    if ls.len() == 0 {
        None
    } else if vdf_line_value(ls[0], key).is_some() {
        vdf_line_value(ls[0], key)
    } else {
        vdf_lines_value(ls.drop_first(), key)
    }
}

/// The value of `key` in a VDF document.
pub fn vdf_value(source: &str, key: &str) -> (r: Option<String>)
    ensures
        match vdf_lines_value(lines(source@), key@) {
            Some(v) => r matches Some(s) && s@ == v,
            None => r.is_none(),
        },
{
    let ls = split_lines(source);
    let ghost views = lines(source@);
    assert(string_views(ls@) =~= views);
    let mut i: usize = 0;
    assert(views.subrange(0, views.len() as int) =~= views);
    while i < ls.len()
        invariant
            i <= ls@.len(),
            views == lines(source@),
            string_views(ls@) == views,
            vdf_lines_value(views, key@) == vdf_lines_value(views.subrange(i as int, views.len() as int), key@),
        decreases ls@.len() - i,
    {
        let ghost rest = views.subrange(i as int, views.len() as int);
        assert(rest[0] == ls@[i as int]@);
        assert(rest.drop_first() =~= views.subrange(i + 1, views.len() as int));
        let parts = split_char(trim_str(ls[i].as_str()), '"');
        assert(string_views(parts@) == split_at_char(trim(rest[0]), '"'));
        assert(string_views(parts@).len() == parts@.len());
        if parts.len() >= 4 && str_eq(parts[1].as_str(), key) {
            proof {
                assert(string_views(parts@)[1] == parts@[1]@);
                assert(string_views(parts@)[3] == parts@[3]@);
                assert(vdf_line_value(rest[0], key@) == Some(parts@[3]@));
                assert(vdf_lines_value(rest, key@) == vdf_line_value(rest[0], key@));
            }
            let value = parts[3].clone();
            assert(value@ == parts@[3]@);
            return Some(value);
        }
        proof {
            if parts@.len() >= 4 {
                assert(string_views(parts@)[1] == parts@[1]@);
            }
            assert(vdf_line_value(rest[0], key@).is_none());
            assert(vdf_lines_value(rest, key@) == vdf_lines_value(rest.drop_first(), key@));
        }
        i = i + 1;
    }
    proof {
        assert(views.subrange(i as int, views.len() as int).len() == 0);
    }
    None
}

/// Message for a Workshop script without a usable `publishedfileid`.
pub open spec fn msg_no_published_file_id(script: Seq<char>) -> Seq<char> {
    "Workshop script has no publishedfileid: "@ + script
}

/// The PublishedFileId that SteamCMD wrote into the script at `script`, whose
/// text is `source`: the `publishedfileid` value, when it is not blank.
pub fn script_published_file_id(source: &str, script: &str) -> (r: Result<String, String>)
    ensures
        match vdf_lines_value(lines(source@), "publishedfileid"@) {
            Some(v) => if trim(v).len() > 0 {
                r matches Ok(s) && s@ == v
            } else {
                r matches Err(e) && e@ == msg_no_published_file_id(script@)
            },
            None => r matches Err(e) && e@ == msg_no_published_file_id(script@),
        },
{
    match vdf_value(source, "publishedfileid") {
        Some(v) => {
            if trim_str(v.as_str()).unicode_len() > 0 {
                Ok(v)
            } else {
                Err(concat("Workshop script has no publishedfileid: ", script))
            }
        },
        None => Err(concat("Workshop script has no publishedfileid: ", script)),
    }
}

/// Message for a creation that left the placeholder PublishedFileId in place.
pub open spec fn msg_not_created(script: Seq<char>) -> Seq<char> {
    "SteamCMD did not write a PublishedFileId into '"@ + script + "'"@
}

/// Accept the PublishedFileId read back after a Workshop creation; `0` means
/// SteamCMD created nothing.
pub fn created_published_file_id(published_file_id: String, script: &str) -> (r: Result<String, String>)
    ensures
        published_file_id@ == "0"@ ==> (r matches Err(e) && e@ == msg_not_created(script@)),
        published_file_id@ != "0"@ ==> (r matches Ok(s) && s@ == published_file_id@),
{
    if str_eq(published_file_id.as_str(), "0") {
        Err(concat3("SteamCMD did not write a PublishedFileId into '", script, "'"))
    } else {
        Ok(published_file_id)
    }
}

/// File name of the Workshop script of `artifact_id`.
pub fn workshop_script_name(artifact_id: &str) -> (r: String)
    ensures
        r@ == "workshop_"@ + slug_of(artifact_id@) + ".vdf"@,
{
    let s = slug(artifact_id);
    concat3("workshop_", s.as_str(), ".vdf")
}

/// `s` with later repetitions removed, first occurrences kept in order.
pub open spec fn dedup(s: Seq<Seq<char>>) -> Seq<Seq<char>>
    decreases s.len(),
{
    if s.len() == 0 {
        Seq::empty()
    } else if dedup(s.drop_last()).contains(s.last()) {
        dedup(s.drop_last())
    } else {
        dedup(s.drop_last()).push(s.last())
    }
}

/// Tags of a Workshop item: its kind first, then its authored tags, each once.
pub open spec fn workshop_tags(artifact: ContentArtifact) -> Seq<Seq<char>> {
    dedup(seq![kind_label(artifact.kind)] + string_views(artifact.workshop.tags@))
}

/// The numbered tag lines of the script.
pub open spec fn tag_lines(tags: Seq<Seq<char>>) -> Seq<char>
    decreases tags.len(),
{
    if tags.len() == 0 {
        Seq::empty()
    } else {
        tag_lines(tags.drop_last()) + "        \""@ + decimal((tags.len() - 1) as nat) + "\" \""@
            + steam_escaped(tags.last()) + "\"\n"@
    }
}

/// The `tags` block of the script.
pub open spec fn tags_block(tags: Seq<Seq<char>>) -> Seq<char> {
    "    \"tags\"\n    {\n"@ + tag_lines(tags) + "    }\n"@
}

/// `o`'s characters, or `default` when absent.
pub open spec fn or_default(o: Option<String>, default: Seq<char>) -> Seq<char> {
    match o {
        Some(s) => s@,
        None => default,
    }
}

/// The change note of a publication: the one given, else the authored one,
/// else a default.
pub open spec fn change_note_of(given: Option<Seq<char>>, artifact: ContentArtifact) -> Seq<char> {
    match given {
        Some(n) => n,
        None => or_default(artifact.workshop.change_note, "Vapor content update"@),
    }
}

/// The `workshopitem` VDF script that uploads `artifact_root` for `artifact`.
pub open spec fn workshop_script_text(
    artifact: ContentArtifact,
    app_id: u32,
    artifact_root: Seq<char>,
    change_note: Option<Seq<char>>,
    preview: bool,
) -> Seq<char> {
    let w = artifact.workshop;
    "\"workshopitem\"\n{\n    \"appid\" \""@ + decimal(app_id as nat) + "\"\n"@
        + (if preview { "    \"preview\" \"1\"\n"@ } else { Seq::<char>::empty() })
        + "    \"publishedfileid\" \""@ + steam_escaped(or_default(w.published_file_id, "0"@)) + "\"\n"@
        + "    \"contentfolder\" \""@ + steam_escaped(artifact_root) + "\"\n"@
        + "    \"visibility\" \""@ + steam_escaped(or_default(w.visibility, "private"@)) + "\"\n"@
        + "    \"title\" \""@ + steam_escaped(or_default(w.title, artifact.name@)) + "\"\n"@
        + "    \"description\" \""@ + steam_escaped(or_default(w.description, Seq::<char>::empty())) + "\"\n"@
        + "    \"changenote\" \""@ + steam_escaped(change_note_of(change_note, artifact)) + "\"\n"@
        + tags_block(workshop_tags(artifact)) + "}\n"@
}

fn contains_text(v: &Vec<String>, t: &str) -> (r: bool)
    ensures
        r == string_views(v@).contains(t@),
{
    let mut i: usize = 0;
    while i < v.len()
        invariant
            i <= v@.len(),
            forall|k: int| 0 <= k < i ==> #[trigger] v@[k]@ != t@,
        decreases v@.len() - i,
    {
        if str_eq(v[i].as_str(), t) {
            assert(string_views(v@)[i as int] == t@);
            return true;
        }
        i = i + 1;
    }
    proof {
        if string_views(v@).contains(t@) {
            let k = choose|k: int| 0 <= k < string_views(v@).len() && string_views(v@)[k] == t@;
            assert(v@[k]@ == t@);
        }
    }
    false
}

/// Tags of the Workshop item for `artifact`.
pub fn collect_workshop_tags(artifact: &ContentArtifact) -> (r: Vec<String>)
    ensures
        string_views(r@) == workshop_tags(*artifact),
{
    let ghost all = seq![kind_label(artifact.kind)] + string_views(artifact.workshop.tags@);
    let mut out: Vec<String> = Vec::new();
    let label = artifact.kind.label();
    out.push(label.to_owned());
    proof {
        let first = all.take(1);
        assert(first.drop_last() =~= Seq::<Seq<char>>::empty());
        assert(dedup(first.drop_last()) =~= Seq::<Seq<char>>::empty());
        assert(first.last() == kind_label(artifact.kind));
        assert(dedup(first) == seq![kind_label(artifact.kind)]);
        assert(string_views(out@) =~= dedup(first));
    }
    let tags = &artifact.workshop.tags;
    let mut i: usize = 0;
    while i < tags.len()
        invariant
            i <= tags@.len(),
            all == seq![kind_label(artifact.kind)] + string_views(tags@),
            string_views(out@) == dedup(all.take(i + 1)),
        decreases tags@.len() - i,
    {
        let ghost before = string_views(out@);
        proof {
            assert(all.take(i + 2).drop_last() =~= all.take(i + 1));
            assert(all.take(i + 2).last() == tags@[i as int]@);
        }
        if !contains_text(&out, tags[i].as_str()) {
            out.push(tags[i].clone());
            proof {
                assert(string_views(out@) =~= before.push(tags@[i as int]@));
            }
        }
        i = i + 1;
    }
    proof {
        assert(all.take(tags@.len() + 1int) =~= all);
    }
    out
}

fn tag_lines_text(tags: &Vec<String>) -> (r: String)
    ensures
        r@ == tag_lines(string_views(tags@)),
{
    let mut r = String::new();
    let mut i: usize = 0;
    while i < tags.len()
        invariant
            i <= tags@.len(),
            r@ == tag_lines(string_views(tags@).take(i as int)),
        decreases tags@.len() - i,
    {
        let ghost before = string_views(tags@).take(i as int);
        r.append("        \"");
        r.append(decimal_string(i as u64).as_str());
        r.append("\" \"");
        r.append(steam_escape(tags[i].as_str()).as_str());
        r.append("\"\n");
        proof {
            let after = string_views(tags@).take(i + 1);
            assert(after.drop_last() =~= before);
            assert(after.last() == tags@[i as int]@);
        }
        i = i + 1;
    }
    proof {
        assert(string_views(tags@).take(tags@.len() as int) =~= string_views(tags@));
    }
    r
}

/// Render the `workshopitem` VDF script for `artifact`, whose package sits at
/// `artifact_root`; a preview script carries `"preview" "1"`.
pub fn workshop_script(artifact: &ContentArtifact, artifact_root: &str, change_note: Option<&str>, preview: bool) -> (r: String)
    requires
        artifact.workshop.app_id.is_some(),
    ensures
        r@ == workshop_script_text(
            *artifact,
            artifact.workshop.app_id.unwrap(),
            artifact_root@,
            match change_note {
                Some(n) => Some(n@),
                None => None,
            },
            preview,
        ),
{
    let w = &artifact.workshop;
    let app_id = match w.app_id {
        Some(a) => a,
        None => 0,
    };
    let ghost note_view = match change_note {
        Some(n) => Some(n@),
        None => None::<Seq<char>>,
    };
    let mut r = String::new();
    r.append("\"workshopitem\"\n{\n    \"appid\" \"");
    r.append(decimal_string(app_id as u64).as_str());
    r.append("\"\n");
    let ghost head = r@;
    if preview {
        r.append("    \"preview\" \"1\"\n");
    }
    assert(r@ =~= head + (if preview { "    \"preview\" \"1\"\n"@ } else { Seq::<char>::empty() }));
    r.append("    \"publishedfileid\" \"");
    let pfid = match &w.published_file_id {
        Some(p) => steam_escape(p.as_str()),
        None => steam_escape("0"),
    };
    r.append(pfid.as_str());
    r.append("\"\n");
    r.append("    \"contentfolder\" \"");
    r.append(steam_escape(artifact_root).as_str());
    r.append("\"\n");
    r.append("    \"visibility\" \"");
    let visibility = match &w.visibility {
        Some(v) => steam_escape(v.as_str()),
        None => steam_escape("private"),
    };
    r.append(visibility.as_str());
    r.append("\"\n");
    r.append("    \"title\" \"");
    let title = match &w.title {
        Some(t) => steam_escape(t.as_str()),
        None => steam_escape(artifact.name.as_str()),
    };
    r.append(title.as_str());
    r.append("\"\n");
    r.append("    \"description\" \"");
    let description = match &w.description {
        Some(d) => steam_escape(d.as_str()),
        None => String::new(),
    };
    r.append(description.as_str());
    r.append("\"\n");
    r.append("    \"changenote\" \"");
    let note = match change_note {
        Some(n) => steam_escape(n),
        None => match &w.change_note {
            Some(n) => steam_escape(n.as_str()),
            None => steam_escape("Vapor content update"),
        },
    };
    assert(note@ == steam_escaped(change_note_of(note_view, *artifact)));
    r.append(note.as_str());
    r.append("\"\n");
    let tags = collect_workshop_tags(artifact);
    let tag_text = tag_lines_text(&tags);
    r.append("    \"tags\"\n    {\n");
    r.append(tag_text.as_str());
    r.append("    }\n");
    r.append("}\n");
    proof {
        assert(pfid@ == steam_escaped(or_default(w.published_file_id, "0"@)));
        assert(visibility@ == steam_escaped(or_default(w.visibility, "private"@)));
        assert(title@ == steam_escaped(or_default(w.title, artifact.name@)));
        assert(description@ == steam_escaped(or_default(w.description, Seq::<char>::empty())));
        assert(tag_text@ == tag_lines(workshop_tags(*artifact)));
        assert(r@ =~= workshop_script_text(*artifact, artifact.workshop.app_id.unwrap(), artifact_root@, note_view, preview));
    }
    r
}

/// A test on one manifest line.
pub enum LineTest {
    /// The trimmed line is exactly this text.
    Trimmed(String),
    /// The line opens a TOML table (`[` after leading whitespace).
    OpensTable,
    /// The line assigns this key (`key =` after leading whitespace).
    KeyLine(String),
}

/// A test on one manifest line, as a value.
pub enum LineTestView {
    Trimmed(Seq<char>),
    OpensTable,
    KeyLine(Seq<char>),
}

/// The value of a line test.
pub open spec fn test_view(t: LineTest) -> LineTestView {
    match t {
        LineTest::Trimmed(s) => LineTestView::Trimmed(s@),
        LineTest::OpensTable => LineTestView::OpensTable,
        LineTest::KeyLine(k) => LineTestView::KeyLine(k@),
    }
}

/// The line assigns `key`: after leading whitespace it starts with `key`,
/// then optional whitespace and `=`.
pub open spec fn key_line(line: Seq<char>, key: Seq<char>) -> bool {
    let t = trim_start(line);
    has_prefix(t, key) && has_prefix(trim_start(t.subrange(key.len() as int, t.len() as int)), "="@)
}

/// Whether `line` passes `test`.
pub open spec fn line_passes(test: LineTestView, line: Seq<char>) -> bool {
    match test {
        LineTestView::Trimmed(t) => trim(line) == t,
        LineTestView::OpensTable => has_prefix(trim_start(line), "["@),
        LineTestView::KeyLine(k) => key_line(line, k),
    }
}

/// Index of the first line at or after `from` that passes `test`, or -1.
pub open spec fn first_line_from(ls: Seq<Seq<char>>, from: int, test: LineTestView) -> int
    decreases ls.len() - from,
{
    if from < 0 || from >= ls.len() {
        -1
    } else if line_passes(test, ls[from]) {
        from
    } else {
        first_line_from(ls, from + 1, test)
    }
}

proof fn lemma_first_line_from(ls: Seq<Seq<char>>, from: int, test: LineTestView)
    requires
        0 <= from,
    ensures
        first_line_from(ls, from, test) == -1 || (from <= first_line_from(ls, from, test) < ls.len()
            && line_passes(test, ls[first_line_from(ls, from, test)])),
        forall|k: int| from <= k < ls.len() && (first_line_from(ls, from, test) < 0 || k < first_line_from(ls, from, test))
            ==> !line_passes(test, #[trigger] ls[k]),
    decreases ls.len() - from,
{
    if from < ls.len() && !line_passes(test, ls[from]) {
        lemma_first_line_from(ls, from + 1, test);
    }
}

/// Whether `line` passes `test`.
pub fn passes(test: &LineTest, line: &str) -> (r: bool)
    ensures
        r == line_passes(test_view(*test), line@),
{
    match test {
        LineTest::Trimmed(t) => str_eq(trim_str(line), t.as_str()),
        LineTest::OpensTable => starts_with(trim_start_str(line), "["),
        LineTest::KeyLine(k) => {
            let t = trim_start_str(line);
            if !starts_with(t, k.as_str()) {
                return false;
            }
            let rest = t.substring_char(k.as_str().unicode_len(), t.unicode_len());
            starts_with(trim_start_str(rest), "=")
        },
    }
}

/// Index of the first line at or after `from` that passes `test`.
pub fn find_line(ls: &Vec<String>, from: usize, test: &LineTest) -> (r: Option<usize>)
    ensures
        match r {
            Some(i) => i as int == first_line_from(string_views(ls@), from as int, test_view(*test)),
            None => first_line_from(string_views(ls@), from as int, test_view(*test)) < 0,
        },
{
    let ghost views = string_views(ls@);
    proof {
        lemma_first_line_from(views, from as int, test_view(*test));
    }
    let mut i: usize = from;
    while i < ls.len()
        invariant
            from <= i,
            views == string_views(ls@),
            first_line_from(views, from as int, test_view(*test)) == first_line_from(views, i as int, test_view(*test)),
        decreases ls@.len() - i,
    {
        assert(views[i as int] == ls@[i as int]@);
        if passes(test, ls[i].as_str()) {
            return Some(i);
        }
        i = i + 1;
    }
    None
}

/// Header of the Steam section of a content manifest of `kind`.
pub open spec fn steam_section(kind: ContentKind) -> Seq<char> {
    "["@ + kind_label(kind) + ".steam]"@
}

/// The `published-file-id` assignment for `id`.
pub open spec fn published_field(id: Seq<char>) -> Seq<char> {
    "published-file-id = \""@ + id + "\""@
}

/// Message for a content manifest without its Steam section.
pub open spec fn msg_no_steam_section(kind: ContentKind) -> Seq<char> {
    "content manifest has no "@ + steam_section(kind) + " section"@
}

/// The manifest lines with `published-file-id` set in the Steam section: an
/// existing assignment there is replaced; else the assignment goes after the
/// section's `app-id`, or first in the section.
pub open spec fn with_published_field(ls: Seq<Seq<char>>, start: int, id: Seq<char>) -> Seq<Seq<char>> {
    let e = first_line_from(ls, start + 1, LineTestView::OpensTable);
    let end = if e < 0 { ls.len() as int } else { e };
    let existing = first_line_from(ls, start + 1, LineTestView::KeyLine("published-file-id"@));
    if existing >= 0 && existing < end {
        ls.update(existing, published_field(id))
    } else {
        let app = first_line_from(ls, start + 1, LineTestView::KeyLine("app-id"@));
        let at = if app >= 0 && app < end { app + 1 } else { start + 1 };
        ls.insert(at, published_field(id))
    }
}

/// The manifest text after recording `id` as the PublishedFileId of the
/// `kind` artifact, or the error for a manifest without the Steam section.
pub open spec fn published_file_id_set(source: Seq<char>, kind: ContentKind, id: Seq<char>) -> Result<Seq<char>, Seq<char>> {
    let ls = lines(source);
    let start = first_line_from(ls, 0, LineTestView::Trimmed(steam_section(kind)));
    if start < 0 {
        Err(msg_no_steam_section(kind))
    } else {
        Ok(joined(with_published_field(ls, start, id), "\n"@) + (if has_suffix(source, "\n"@) { "\n"@ } else { Seq::<char>::empty() }))
    }
}

/// Recording a PublishedFileId in a manifest whose `[<kind>.steam]` section
/// already assigns `published-file-id` replaces that assignment where it
/// stands: the result is the manifest with its first `published-file-id`
/// line of the section (line `p`) turned into
/// `published-file-id = "<id>"`, every other line kept, and as many lines
/// as before; no second assignment is added.
pub proof fn law_published_id_replaces_existing(source: Seq<char>, kind: ContentKind, id: Seq<char>, p: int)
    requires
        first_line_from(lines(source), 0, LineTestView::Trimmed(steam_section(kind))) >= 0,
        first_line_from(lines(source), 0, LineTestView::Trimmed(steam_section(kind))) < p < lines(source).len(),
        key_line(lines(source)[p], "published-file-id"@),
        forall|k: int| first_line_from(lines(source), 0, LineTestView::Trimmed(steam_section(kind))) < k < p
            ==> !key_line(#[trigger] lines(source)[k], "published-file-id"@) && !has_prefix(trim_start(lines(source)[k]), "["@),
    ensures
        published_file_id_set(source, kind, id) == Ok::<Seq<char>, Seq<char>>(
            joined(lines(source).update(p, published_field(id)), "\n"@)
                + (if has_suffix(source, "\n"@) { "\n"@ } else { Seq::<char>::empty() })),
        lines(source).update(p, published_field(id)).len() == lines(source).len(),
{
    let ls = lines(source);
    let start = first_line_from(ls, 0, LineTestView::Trimmed(steam_section(kind)));
    let key = "published-file-id"@;
    lemma_first_line_from(ls, start + 1, LineTestView::KeyLine(key));
    lemma_first_line_from(ls, start + 1, LineTestView::OpensTable);
    let existing = first_line_from(ls, start + 1, LineTestView::KeyLine(key));
    assert(line_passes(LineTestView::KeyLine(key), ls[p]));
    if existing != p {
        if existing < 0 || existing > p {
            assert(!line_passes(LineTestView::KeyLine(key), ls[p]));
        } else {
            assert(!key_line(ls[existing], key));
        }
    }
    let t = trim_start(ls[p]);
    reveal_strlit("published-file-id");
    reveal_strlit("[");
    assert(t[0] == 'p') by {
        assert(t.subrange(0, key.len() as int)[0] == t[0]);
    }
    if has_prefix(t, "["@) {
        assert(t.subrange(0, 1)[0] == t[0]);
    }
    let e = first_line_from(ls, start + 1, LineTestView::OpensTable);
    if e >= 0 && e <= p {
        if e == p {
            assert(line_passes(LineTestView::OpensTable, ls[p]));
        } else {
            assert(!has_prefix(trim_start(ls[e]), "["@));
        }
    }
    assert(with_published_field(ls, start, id) == ls.update(p, published_field(id)));
}

/// Recording a PublishedFileId in a manifest whose `[<kind>.steam]` section
/// (header at line `start`, running up to line `end`, the next table header
/// or the end of the manifest) has no `published-file-id` assignment inserts
/// one line `published-file-id = "<id>"` at `at`: right after the section's
/// first `app-id` assignment, or first in the section when it has none.
/// Every other line is kept, in order.
pub proof fn law_published_id_inserted(source: Seq<char>, kind: ContentKind, id: Seq<char>, end: int, at: int)
    requires
        ({
            let ls = lines(source);
            let start = first_line_from(ls, 0, LineTestView::Trimmed(steam_section(kind)));
            &&& start >= 0
            &&& start < end <= ls.len()
            &&& end < ls.len() ==> has_prefix(trim_start(ls[end]), "["@)
            &&& forall|k: int| start < k < end ==> !has_prefix(trim_start(#[trigger] ls[k]), "["@)
                && !key_line(ls[k], "published-file-id"@)
            &&& (at == start + 1 && forall|k: int| start < k < end ==> !key_line(#[trigger] ls[k], "app-id"@))
                || (start + 1 < at <= end && key_line(ls[at - 1], "app-id"@)
                    && forall|k: int| start < k < at - 1 ==> !key_line(#[trigger] ls[k], "app-id"@))
        }),
    ensures
        published_file_id_set(source, kind, id) == Ok::<Seq<char>, Seq<char>>(
            joined(lines(source).insert(at, published_field(id)), "\n"@)
                + (if has_suffix(source, "\n"@) { "\n"@ } else { Seq::<char>::empty() })),
{
    let ls = lines(source);
    let start = first_line_from(ls, 0, LineTestView::Trimmed(steam_section(kind)));
    lemma_first_line_from(ls, start + 1, LineTestView::KeyLine("published-file-id"@));
    lemma_first_line_from(ls, start + 1, LineTestView::KeyLine("app-id"@));
    lemma_first_line_from(ls, start + 1, LineTestView::OpensTable);
    let e = first_line_from(ls, start + 1, LineTestView::OpensTable);
    if end < ls.len() {
        assert(line_passes(LineTestView::OpensTable, ls[end]));
    }
    if e >= 0 && e < end {
        assert(!has_prefix(trim_start(ls[e]), "["@));
    }
    let existing = first_line_from(ls, start + 1, LineTestView::KeyLine("published-file-id"@));
    if existing >= 0 && existing < end {
        assert(!key_line(ls[existing], "published-file-id"@));
    }
    let app = first_line_from(ls, start + 1, LineTestView::KeyLine("app-id"@));
    if at == start + 1 && forall|k: int| start < k < end ==> !key_line(#[trigger] ls[k], "app-id"@) {
        if app >= 0 && app < end {
            assert(!key_line(ls[app], "app-id"@));
        }
    } else {
        assert(line_passes(LineTestView::KeyLine("app-id"@), ls[at - 1]));
        if app != at - 1 {
            if app < 0 || app > at - 1 {
                assert(!line_passes(LineTestView::KeyLine("app-id"@), ls[at - 1]));
            } else {
                assert(!key_line(ls[app], "app-id"@));
            }
        }
    }
    assert(with_published_field(ls, start, id) == ls.insert(at, published_field(id)));
}

/// Record `published_file_id` in the `[<kind>.steam]` section of a content
/// manifest, keeping every other line as it is.
pub fn set_published_file_id(source: &str, kind: ContentKind, published_file_id: &str) -> (r: Result<String, String>)
    ensures
        match published_file_id_set(source@, kind, published_file_id@) {
            Ok(t) => r matches Ok(s) && s@ == t,
            Err(m) => r matches Err(e) && e@ == m,
        },
{
    let section = concat3("[", kind.label(), ".steam]");
    let mut ls = split_lines(source);
    let ghost views = lines(source@);
    assert(string_views(ls@) =~= views);
    let start = match find_line(&ls, 0, &LineTest::Trimmed(section)) {
        Some(i) => i,
        None => {
            return Err(concat3("content manifest has no ", concat3("[", kind.label(), ".steam]").as_str(), " section"));
        },
    };
    proof {
        lemma_first_line_from(views, 0, LineTestView::Trimmed(steam_section(kind)));
    }
    let n = ls.len();
    let end = match find_line(&ls, start + 1, &LineTest::OpensTable) {
        Some(e) => e,
        None => n,
    };
    let field = concat3("published-file-id = \"", published_file_id, "\"");
    let existing = find_line(&ls, start + 1, &LineTest::KeyLine("published-file-id".to_owned()));
    proof {
        lemma_first_line_from(views, start + 1, LineTestView::KeyLine("published-file-id"@));
        lemma_first_line_from(views, start + 1, LineTestView::KeyLine("app-id"@));
        lemma_first_line_from(views, start + 1, LineTestView::OpensTable);
    }
    match existing {
        Some(i) => {
            if i < end {
                ls.set(i, field);
                proof {
                    assert(string_views(ls@) =~= with_published_field(views, start as int, published_file_id@));
                }
            } else {
                let app = find_line(&ls, start + 1, &LineTest::KeyLine("app-id".to_owned()));
                let at = match app {
                    Some(a) => if a < end { a + 1 } else { start + 1 },
                    None => start + 1,
                };
                ls.insert(at, field);
                proof {
                    assert(string_views(ls@) =~= with_published_field(views, start as int, published_file_id@));
                }
            }
        },
        None => {
            let app = find_line(&ls, start + 1, &LineTest::KeyLine("app-id".to_owned()));
            let at = match app {
                Some(a) => if a < end { a + 1 } else { start + 1 },
                None => start + 1,
            };
            ls.insert(at, field);
            proof {
                assert(string_views(ls@) =~= with_published_field(views, start as int, published_file_id@));
            }
        },
    }
    let mut updated = join_strings(ls.as_slice(), "\n");
    if ends_with(source, "\n") {
        updated.append("\n");
    }
    proof {
        assert(updated@ =~= joined(with_published_field(views, start as int, published_file_id@), "\n"@)
            + (if has_suffix(source@, "\n"@) { "\n"@ } else { Seq::<char>::empty() }));
    }
    Ok(updated)
}

} // verus!
