//! Templates and settings: merging the built-in and user template lists,
//! looking templates up, adding and removing user templates, choosing the
//! GitHub mirror and rewriting repository URLs through it, and the paths of
//! the user's configuration files.
use vstd::prelude::*;

use crate::text::{
    compare_text, is_prefix, lemma_text_lt_irreflexive, starts_with,
    text_eq, trim_end_char, trim_end_matches_char, lemma_text_lt_transitive, string_views, text_lt, Order,
};

verus! {

/// One project template.
#[derive(Debug, Clone)]
pub struct Template {
    pub name: String,
    pub description: String,
    pub repository: String,
    pub branch: String,
    pub tags: Vec<String>,
}

/// The mathematical content of a [`Template`].
pub struct TemplateView {
    pub name: Seq<char>,
    pub description: Seq<char>,
    pub repository: Seq<char>,
    pub branch: Seq<char>,
    pub tags: Seq<Seq<char>>,
}

impl View for Template {
    type V = TemplateView;

    open spec fn view(&self) -> TemplateView {
        TemplateView {
            name: self.name@,
            description: self.description@,
            repository: self.repository@,
            branch: self.branch@,
            tags: string_views(self.tags@),
        }
    }
}

/// Project-level settings.
#[derive(Debug, Clone)]
pub struct Settings {
    /// GitHub mirror prefix, such as `https://ghfast.top/`.
    pub mirror: Option<String>,
}

impl Default for Settings {
    fn default() -> (s: Self)
        ensures
            s.mirror is None,
    {
        Settings { mirror: None }
    }
}

/// The content of a templates file: settings and a list of templates.
#[derive(Debug, Clone)]
pub struct TemplateConfig {
    pub settings: Settings,
    pub templates: Vec<Template>,
}

/// The branch a template uses when its definition names none.
pub fn default_branch() -> (b: String)
    ensures
        b@ == "main"@,
{
    String::from_str("main")
}

// ─── Merging template lists ───

/// The templates of `s` keyed by name; of several with one name the last counts.
pub open spec fn templates_by_name(s: Seq<Template>) -> Map<Seq<char>, TemplateView>
    decreases s.len(),
{
    if s.len() == 0 {
        Map::empty()
    } else {
        templates_by_name(s.drop_last()).insert(s.last().name@, s.last()@)
    }
}

/// The names of `s` ascend strictly.
pub open spec fn sorted_by_name(s: Seq<Template>) -> bool {
    forall|i: int, j: int| 0 <= i < j < s.len() ==> text_lt(#[trigger] s[i].name@, #[trigger] s[j].name@)
}

/// No two templates of `s` share a name.
pub open spec fn names_distinct(s: Seq<Template>) -> bool {
    forall|i: int, j: int| 0 <= i < j < s.len() ==> #[trigger] s[i].name@ != #[trigger] s[j].name@
}

/// Whether some template of `s` is called `name`.
pub open spec fn has_name(s: Seq<Template>, name: Seq<char>) -> bool {
    exists|i: int| 0 <= i < s.len() && #[trigger] s[i].name@ == name
}

/// A list sorted by name has distinct names.
pub proof fn lemma_sorted_distinct(s: Seq<Template>)
    requires
        sorted_by_name(s),
    ensures
        names_distinct(s),
{
    assert forall|i: int, j: int| 0 <= i < j < s.len() implies #[trigger] s[i].name@
        != #[trigger] s[j].name@ by {
        lemma_text_lt_irreflexive(s[i].name@);
    }
}

/// On a list with distinct names, the keyed map holds exactly its templates.
pub proof fn lemma_by_name_distinct(s: Seq<Template>)
    requires
        names_distinct(s),
    ensures
        forall|i: int|
            0 <= i < s.len() ==> templates_by_name(s).contains_key(#[trigger] s[i].name@)
                && templates_by_name(s)[s[i].name@] == s[i]@,
        forall|k: Seq<char>| #[trigger]
            templates_by_name(s).contains_key(k) ==> has_name(s, k),
    decreases s.len(),
{
    if s.len() > 0 {
        let p = s.drop_last();
        assert(names_distinct(p));
        lemma_by_name_distinct(p);
        assert forall|i: int| 0 <= i < s.len() implies templates_by_name(s).contains_key(
            #[trigger] s[i].name@,
        ) && templates_by_name(s)[s[i].name@] == s[i]@ by {
            if i < s.len() - 1 {
                assert(p[i] == s[i]);
                assert(s[i].name@ != s[s.len() - 1].name@);
            }
        }
        assert forall|k: Seq<char>| #[trigger]
            templates_by_name(s).contains_key(k) implies has_name(s, k) by {
            if k != s.last().name@ {
                assert(templates_by_name(p).contains_key(k));
                let i = choose|i: int| 0 <= i < p.len() && #[trigger] p[i].name@ == k;
                assert(s[i].name@ == k);
            } else {
                assert(s[s.len() - 1].name@ == k);
            }
        }
    }
}

/// Where `name` belongs in the sorted list `s`: the first position whose name
/// is not below `name`, and whether the name found there is `name` itself.
fn position_by_name(s: &Vec<Template>, name: &str) -> (r: (usize, bool))
    requires
        sorted_by_name(s@),
    ensures
        r.0 <= s.len(),
        forall|j: int| 0 <= j < r.0 ==> text_lt(#[trigger] s@[j].name@, name@),
        r.1 ==> r.0 < s.len() && s@[r.0 as int].name@ == name@,
        !r.1 && r.0 < s.len() ==> text_lt(name@, s@[r.0 as int].name@),
{
    let n = s.len();
    let mut i: usize = 0;
    while i < n
        invariant
            n == s.len(),
            i <= n,
            forall|j: int| 0 <= j < i ==> text_lt(#[trigger] s@[j].name@, name@),
        decreases n - i,
    {
        match compare_text(s[i].name.as_str(), name) {
            Order::Less => {
                i = i + 1;
            },
            Order::Equal => {
                return (i, true);
            },
            Order::Greater => {
                return (i, false);
            },
        }
    }
    (i, false)
}

/// Puts `t` into the sorted list `acc`, in place of the template of the same
/// name if there is one.
fn insert_by_name(acc: &mut Vec<Template>, t: Template)
    requires
        sorted_by_name(old(acc)@),
    ensures
        sorted_by_name(final(acc)@),
        templates_by_name(final(acc)@) == templates_by_name(old(acc)@).insert(t.name@, t@),
{
    let ghost old_s = acc@;
    let ghost k = t.name@;
    let (i, equal) = position_by_name(acc, t.name.as_str());
    proof {
        lemma_sorted_distinct(old_s);
        lemma_by_name_distinct(old_s);
    }
    if equal {
        acc.set(i, t);
        let ghost new_s = acc@;
        assert(sorted_by_name(new_s)) by {
            assert forall|a: int, b: int| 0 <= a < b < new_s.len() implies text_lt(
                #[trigger] new_s[a].name@,
                #[trigger] new_s[b].name@,
            ) by {
                assert(new_s[a].name@ == old_s[a].name@);
                assert(new_s[b].name@ == old_s[b].name@);
            }
        }
        proof {
            lemma_sorted_distinct(new_s);
            lemma_by_name_distinct(new_s);
            let m_new = templates_by_name(new_s);
            let m_want = templates_by_name(old_s).insert(k, t@);
            assert forall|x: Seq<char>| #[trigger] m_new.contains_key(x) implies m_want.contains_key(x) by {
                let j = choose|j: int| 0 <= j < new_s.len() && #[trigger] new_s[j].name@ == x;
                if j != i {
                    assert(old_s[j] == new_s[j]);
                }
            }
            assert forall|x: Seq<char>| #[trigger] m_want.contains_key(x) implies m_new.contains_key(x)
                && m_new[x] == m_want[x] by {
                if x == k {
                    assert(new_s[i as int].name@ == x);
                } else {
                    let j = choose|j: int| 0 <= j < old_s.len() && #[trigger] old_s[j].name@ == x;
                    assert(j != i);
                    assert(new_s[j] == old_s[j]);
                }
            }
            assert(m_new =~= m_want);
        }
    } else {
        acc.insert(i, t);
        let ghost new_s = acc@;
        assert(sorted_by_name(new_s)) by {
            assert forall|a: int, b: int| 0 <= a < b < new_s.len() implies text_lt(
                #[trigger] new_s[a].name@,
                #[trigger] new_s[b].name@,
            ) by {
                if b < i {
                    assert(new_s[a] == old_s[a] && new_s[b] == old_s[b]);
                } else if b == i {
                    assert(new_s[a] == old_s[a]);
                } else if a == i {
                    assert(new_s[b] == old_s[b - 1]);
                    if b - 1 > i {
                        assert(text_lt(old_s[i as int].name@, old_s[b - 1].name@));
                        lemma_text_lt_transitive(k, old_s[i as int].name@, old_s[b - 1].name@);
                    }
                } else if a < i {
                    assert(new_s[a] == old_s[a] && new_s[b] == old_s[b - 1]);
                } else {
                    assert(new_s[a] == old_s[a - 1] && new_s[b] == old_s[b - 1]);
                }
            }
        }
        proof {
            assert(!has_name(old_s, k)) by {
                if has_name(old_s, k) {
                    let j = choose|j: int| 0 <= j < old_s.len() && #[trigger] old_s[j].name@ == k;
                    lemma_text_lt_irreflexive(k);
                    if j > i {
                        lemma_text_lt_transitive(k, old_s[i as int].name@, old_s[j].name@);
                    }
                }
            }
            lemma_sorted_distinct(new_s);
            lemma_by_name_distinct(new_s);
            let m_new = templates_by_name(new_s);
            let m_want = templates_by_name(old_s).insert(k, t@);
            assert forall|x: Seq<char>| #[trigger] m_new.contains_key(x) implies m_want.contains_key(x) by {
                let j = choose|j: int| 0 <= j < new_s.len() && #[trigger] new_s[j].name@ == x;
                if j < i {
                    assert(old_s[j] == new_s[j]);
                } else if j > i {
                    assert(old_s[j - 1] == new_s[j]);
                }
            }
            assert forall|x: Seq<char>| #[trigger] m_want.contains_key(x) implies m_new.contains_key(x)
                && m_new[x] == m_want[x] by {
                if x == k {
                    assert(new_s[i as int].name@ == x);
                } else {
                    let j = choose|j: int| 0 <= j < old_s.len() && #[trigger] old_s[j].name@ == x;
                    if j < i {
                        assert(new_s[j] == old_s[j]);
                    } else {
                        assert(new_s[j + 1] == old_s[j]);
                    }
                }
            }
            assert(m_new =~= m_want);
        }
    }
}

/// All templates: the built-in ones, with each user template replacing the
/// built-in one of the same name, sorted by name.
pub fn load_all_templates(builtin: Vec<Template>, user: Vec<Template>) -> (r: Vec<Template>)
    ensures
        sorted_by_name(r@),
        names_distinct(r@),
        templates_by_name(r@) == templates_by_name(builtin@ + user@),
{
    let ghost all = builtin@ + user@;
    let mut acc: Vec<Template> = Vec::new();
    let ghost nb = builtin@.len();
    assert(all.take(0) =~= Seq::<Template>::empty());
    for t in it: builtin.into_iter()
        invariant
            all == builtin@ + user@,
            nb == builtin@.len(),
            it.seq() == builtin@,
            sorted_by_name(acc@),
            templates_by_name(acc@) == templates_by_name(all.take(it.index() as int)),
    {
        let ghost idx = it.index() as int;
        proof {
            assert(all.take(idx + 1).drop_last() =~= all.take(idx));
            assert(all.take(idx + 1).last() == t);
        }
        insert_by_name(&mut acc, t);
    }
    for t in it: user.into_iter()
        invariant
            all == builtin@ + user@,
            nb == builtin@.len(),
            it.seq() == user@,
            sorted_by_name(acc@),
            templates_by_name(acc@) == templates_by_name(all.take(nb + it.index())),
    {
        let ghost idx = nb + it.index();
        proof {
            assert(all.take(idx + 1).drop_last() =~= all.take(idx));
            assert(all.take(idx + 1).last() == t);
        }
        insert_by_name(&mut acc, t);
    }
    assert(all.take(all.len() as int) =~= all);
    proof {
        lemma_sorted_distinct(acc@);
    }
    acc
}

/// The template called `name` among all templates (see [`load_all_templates`]).
pub fn find_template(builtin: Vec<Template>, user: Vec<Template>, name: &str) -> (r: Option<
    Template,
>)
    ensures
        r is Some <==> templates_by_name(builtin@ + user@).contains_key(name@),
        r matches Some(t) ==> t@ == templates_by_name(builtin@ + user@)[name@],
{
    let ghost all = builtin@ + user@;
    let mut templates = load_all_templates(builtin, user);
    proof {
        lemma_sorted_distinct(templates@);
        lemma_by_name_distinct(templates@);
    }
    let n = templates.len();
    let mut i: usize = 0;
    while i < n
        invariant
            n == templates.len(),
            i <= n,
            templates_by_name(templates@) == templates_by_name(all),
            all == builtin@ + user@,
            sorted_by_name(templates@),
            forall|j: int| 0 <= j < i ==> #[trigger] templates@[j].name@ != name@,
        decreases n - i,
    {
        if text_eq(templates[i].name.as_str(), name) {
            proof {
                lemma_sorted_distinct(templates@);
                lemma_by_name_distinct(templates@);
                assert(templates@[i as int].name@ == name@);
            }
            let t = templates.swap_remove(i);
            return Some(t);
        }
        i = i + 1;
    }
    proof {
        lemma_sorted_distinct(templates@);
        lemma_by_name_distinct(templates@);
        if templates_by_name(templates@).contains_key(name@) {
            let j = choose|j: int| 0 <= j < templates@.len() && #[trigger] templates@[j].name@ == name@;
        }
    }
    None
}

// ─── Editing the user's templates ───

/// The index of the first template of `s` called `name`; `s.len()` if there is none.
pub open spec fn first_index_of_name(s: Seq<Template>, name: Seq<char>) -> int
    decreases s.len(),
{
    if s.len() == 0 {
        0
    } else if s[0].name@ == name {
        0
    } else {
        1 + first_index_of_name(s.drop_first(), name)
    }
}

/// `first_index_of_name` is the first index with that name, or the length.
pub proof fn lemma_first_index_of_name(s: Seq<Template>, name: Seq<char>)
    ensures
        0 <= first_index_of_name(s, name) <= s.len(),
        forall|j: int| 0 <= j < first_index_of_name(s, name) ==> #[trigger] s[j].name@ != name,
        first_index_of_name(s, name) < s.len() ==> s[first_index_of_name(s, name)].name@ == name,
    decreases s.len(),
{
    if s.len() > 0 && s[0].name@ != name {
        lemma_first_index_of_name(s.drop_first(), name);
        assert forall|j: int| 0 <= j < first_index_of_name(s, name) implies #[trigger] s[j].name@
            != name by {
            if j > 0 {
                assert(s[j] == s.drop_first()[j - 1]);
            }
        }
    }
}

/// `s` with `t` put in place of its first template of the same name, or
/// appended when there is none.
pub open spec fn with_template(s: Seq<Template>, t: Template) -> Seq<Template> {
    let i = first_index_of_name(s, t.name@);
    if i < s.len() {
        s.update(i, t)
    } else {
        s.push(t)
    }
}

/// Adds `template` to the user's templates: it replaces the first one of the
/// same name, or else is appended.
pub fn add_user_template(templates: &mut Vec<Template>, template: Template)
    ensures
        final(templates)@ == with_template(old(templates)@, template),
{
    proof {
        lemma_first_index_of_name(templates@, template.name@);
    }
    let n = templates.len();
    let mut i: usize = 0;
    while i < n
        invariant
            n == templates.len(),
            i <= n,
            templates@ == old(templates)@,
            forall|j: int| 0 <= j < i ==> #[trigger] templates@[j].name@ != template.name@,
        decreases n - i,
    {
        if text_eq(templates[i].name.as_str(), template.name.as_str()) {
            proof {
                lemma_first_index_of_name(old(templates)@, template.name@);
                let f = first_index_of_name(old(templates)@, template.name@);
                if f < i {
                    assert(templates@[f].name@ != template.name@);
                }
                if f > i {
                    assert(templates@[i as int].name@ != template.name@);
                }
            }
            templates.set(i, template);
            return;
        }
        i = i + 1;
    }
    proof {
        lemma_first_index_of_name(old(templates)@, template.name@);
        let f = first_index_of_name(old(templates)@, template.name@);
        if f < n {
            assert(templates@[f].name@ != template.name@);
        }
    }
    templates.push(template);
}

/// The templates of `s` not called `name`, in order.
pub open spec fn without_name(s: Seq<Template>, name: Seq<char>) -> Seq<Template> {
    s.filter(|t: Template| t.name@ != name)
}

/// Removes every user template called `name`; tells whether there was one.
pub fn remove_user_template(templates: &mut Vec<Template>, name: &str) -> (removed: bool)
    ensures
        final(templates)@ == without_name(old(templates)@, name@),
        removed == has_name(old(templates)@, name@),
{
    let mut items: Vec<Template> = Vec::new();
    std::mem::swap(templates, &mut items);
    let ghost src = items@;
    let ghost pred = |t: Template| t.name@ != name@;
    let mut found = false;
    assert(src.take(0) =~= Seq::<Template>::empty());
    for t in it: items.into_iter()
        invariant
            it.seq() == src,
            src == old(templates)@,
            pred == (|t: Template| t.name@ != name@),
            templates@ == src.take(it.index() as int).filter(pred),
            found == has_name(src.take(it.index() as int), name@),
    {
        let ghost idx = it.index() as int;
        proof {
            reveal_with_fuel(Seq::<_>::filter, 1);
            assert(src.take(idx + 1).drop_last() =~= src.take(idx));
            assert(src.take(idx + 1).last() == t);
        }
        let keep = !text_eq(t.name.as_str(), name);
        proof {
            let p1 = src.take(idx + 1);
            if has_name(p1, name@) && !has_name(src.take(idx), name@) {
                let j = choose|j: int| 0 <= j < p1.len() && #[trigger] p1[j].name@ == name@;
                if j < idx {
                    assert(src.take(idx)[j] == p1[j]);
                }
            }
            if has_name(src.take(idx), name@) {
                let j = choose|j: int| 0 <= j < idx && #[trigger] src.take(idx)[j].name@ == name@;
                assert(p1[j] == src.take(idx)[j]);
            }
            if !keep {
                assert(p1[idx].name@ == name@);
            }
        }
        if keep {
            templates.push(t);
        } else {
            found = true;
        }
    }
    assert(src.take(src.len() as int) =~= src);
    found
}

// ─── The GitHub mirror ───

/// The mirror used for a clone: the command-line one if given; else the one
/// of the user's settings, if they loaded and name one; else the one of the
/// built-in settings, if they loaded.
pub open spec fn mirror_by_priority(
    cli_mirror: Option<String>,
    user: Option<Settings>,
    builtin: Option<Settings>,
) -> Option<String> {
    if cli_mirror is Some {
        cli_mirror
    } else if user matches Some(u) && u.mirror is Some {
        user->0.mirror
    } else {
        match builtin {
            Some(b) => b.mirror,
            None => None,
        }
    }
}

/// The mirror to use, by priority: command line, then user settings, then
/// built-in settings. `user` and `builtin` are `None` where they failed to load.
pub fn get_mirror(cli_mirror: &Option<String>, user: Option<Settings>, builtin: Option<Settings>) -> (r:
    Option<String>)
    ensures
        r == mirror_by_priority(*cli_mirror, user, builtin),
{
    if let Some(m) = cli_mirror {
        return Some(m.clone());
    }
    if let Some(u) = user {
        if u.mirror.is_some() {
            return u.mirror;
        }
    }
    match builtin {
        Some(b) => b.mirror,
        None => None,
    }
}

/// The views of an optional text.
pub open spec fn option_text(o: Option<String>) -> Option<Seq<char>> {
    match o {
        Some(s) => Some(s@),
        None => None,
    }
}

/// The prefix of the URLs that go through the mirror.
pub open spec fn github_prefix() -> Seq<char> {
    "https://github.com/"@
}

/// `url` rewritten through `mirror`: a GitHub URL is put behind the mirror
/// prefix (trailing slashes of the prefix collapsed into one); any other URL,
/// or any URL when there is no mirror, is unchanged.
pub open spec fn mirrored_url(url: Seq<char>, mirror: Option<Seq<char>>) -> Seq<char> {
    match mirror {
        Some(prefix) => if is_prefix(github_prefix(), url) {
            trim_end_char(prefix, '/') + seq!['/'] + url
        } else {
            url
        },
        None => url,
    }
}

/// Rewrites a GitHub URL so that it goes through the mirror.
pub fn apply_mirror(url: &str, mirror: &Option<String>) -> (r: String)
    ensures
        r@ == mirrored_url(url@, option_text(*mirror)),
{
    match mirror {
        Some(prefix) => {
            if starts_with(url, "https://github.com/") {
                let base = trim_end_matches_char(prefix.as_str(), '/');
                let r = base.concat("/");
                proof {
                    reveal_strlit("/");
                }
                let r = r.concat(url);
                assert(r@ =~= trim_end_char(prefix@, '/') + seq!['/'] + url@);
                r
            } else {
                url.to_owned()
            }
        },
        None => url.to_owned(),
    }
}

// ─── Configuration paths ───

/// What `std::path::Path::join` gives, as text, for `component` joined onto
/// `base`. The rule is the one std is compiled with for the target platform
/// (its separator, and on Windows its drive and root prefixes); within a
/// program it reads nothing but the two texts.
pub uninterp spec fn path_join(base: Seq<char>, component: Seq<char>) -> Seq<char>;

/// Joins `component` onto `base` with `std::path::Path::join` and gives the
/// joined path as text. Claimed: the text is what `path_join` names for the
/// two texts. Both are valid UTF-8, so the joined path is too and
/// `to_string_lossy` changes nothing.
#[verifier::external_body]
fn join_path(base: &str, component: &str) -> (r: String)
    ensures
        r@ == path_join(base@, component@),
{
    std::path::Path::new(base).join(component).to_string_lossy().into_owned()
}

/// The directory the configuration directory lives in: the home directory,
/// or the current directory `.` when the home directory is unknown.
pub open spec fn config_home(home: Option<Seq<char>>) -> Seq<char> {
    match home {
        Some(h) => h,
        None => "."@,
    }
}

/// The user's configuration directory, from the value of `HOME` if it is set:
/// `.baiban` joined onto the home directory, or onto the current directory
/// `.` when the home directory is unknown.
pub fn user_config_dir(home: Option<String>) -> (r: String)
    ensures
        r@ == path_join(config_home(option_text(home)), ".baiban"@),
{
    match home {
        Some(h) => join_path(h.as_str(), ".baiban"),
        None => join_path(".", ".baiban"),
    }
}

/// The user's templates file: `templates.toml` joined onto the
/// configuration directory `config_dir`.
pub fn user_config_path(config_dir: &str) -> (r: String)
    ensures
        r@ == path_join(config_dir@, "templates.toml"@),
{
    join_path(config_dir, "templates.toml")
}

/// The user's settings file: `settings.toml` joined onto the configuration
/// directory `config_dir`.
pub fn user_settings_path(config_dir: &str) -> (r: String)
    ensures
        r@ == path_join(config_dir@, "settings.toml"@),
{
    join_path(config_dir, "settings.toml")
}

// ─── Laws ───

/// The keys of `templates_by_name(s)` are exactly the names in `s`.
pub proof fn lemma_by_name_domain(s: Seq<Template>)
    ensures
        forall|k: Seq<char>| #[trigger] templates_by_name(s).contains_key(k) <==> has_name(s, k),
    decreases s.len(),
{
    if s.len() > 0 {
        let p = s.drop_last();
        lemma_by_name_domain(p);
        assert forall|k: Seq<char>| #[trigger] templates_by_name(s).contains_key(k) <==> has_name(
            s,
            k,
        ) by {
            assert(templates_by_name(p).contains_key(k) <==> has_name(p, k));
            if has_name(p, k) {
                let j = choose|j: int| 0 <= j < p.len() && #[trigger] p[j].name@ == k;
                assert(s[j] == p[j]);
            }
            if has_name(s, k) && k != s.last().name@ {
                let j = choose|j: int| 0 <= j < s.len() && #[trigger] s[j].name@ == k;
                assert(p[j] == s[j]);
            }
            if k == s.last().name@ {
                assert(s[s.len() - 1].name@ == k);
            }
        }
    }
}

/// The template kept under a name carries that name.
pub proof fn lemma_by_name_names(s: Seq<Template>)
    ensures
        forall|k: Seq<char>| #[trigger] templates_by_name(s).contains_key(k) ==> templates_by_name(s)[k].name == k,
    decreases s.len(),
{
    if s.len() > 0 {
        let p = s.drop_last();
        lemma_by_name_names(p);
        assert forall|k: Seq<char>| #[trigger] templates_by_name(s).contains_key(k) implies templates_by_name(s)[k].name == k by {
            if k != s.last().name@ {
                assert(templates_by_name(p).contains_key(k));
            }
        }
    }
}

/// User templates override built-in ones: keyed by name, the merged list is
/// the built-in map with every entry of the user map put over it.
pub proof fn lemma_user_templates_override(builtin: Seq<Template>, user: Seq<Template>)
    ensures
        templates_by_name(builtin + user) == templates_by_name(builtin).union_prefer_right(
            templates_by_name(user),
        ),
    decreases user.len(),
{
    if user.len() == 0 {
        assert(builtin + user =~= builtin);
        assert(templates_by_name(builtin).union_prefer_right(templates_by_name(user))
            =~= templates_by_name(builtin));
    } else {
        let p = user.drop_last();
        lemma_user_templates_override(builtin, p);
        assert((builtin + user).drop_last() =~= builtin + p);
        assert((builtin + user).last() == user.last());
        assert(templates_by_name(builtin + user) =~= templates_by_name(builtin).union_prefer_right(
            templates_by_name(user),
        ));
    }
}

/// The merged list holds a template of every name that occurs in either list
/// and of no other name; where the user list has a name, its last template of
/// that name is the one kept, and otherwise the built-in list's last one.
pub proof fn lemma_merged_templates(builtin: Seq<Template>, user: Seq<Template>, name: Seq<char>)
    ensures
        templates_by_name(builtin + user).contains_key(name) <==> (has_name(builtin, name)
            || has_name(user, name)),
        has_name(user, name) ==> templates_by_name(builtin + user)[name] == templates_by_name(
            user,
        )[name],
        !has_name(user, name) && has_name(builtin, name) ==> templates_by_name(builtin + user)[name]
            == templates_by_name(builtin)[name],
{
    lemma_user_templates_override(builtin, user);
    lemma_by_name_domain(builtin);
    lemma_by_name_domain(user);
    assert(templates_by_name(builtin).contains_key(name) <==> has_name(builtin, name));
    assert(templates_by_name(user).contains_key(name) <==> has_name(user, name));
}

/// After adding `t`, the list has a template called `t.name` (namely `t`), its
/// length grew by at most one, and every template of another name is kept.
pub proof fn lemma_add_user_template(s: Seq<Template>, t: Template)
    ensures
        has_name(with_template(s, t), t.name@),
        with_template(s, t).len() == s.len() || with_template(s, t).len() == s.len() + 1,
        with_template(s, t).len() == s.len() <==> has_name(s, t.name@),
        forall|i: int|
            0 <= i < s.len() && #[trigger] s[i].name@ != t.name@ ==> with_template(s, t)[i]
                == s[i],
{
    lemma_first_index_of_name(s, t.name@);
    let i = first_index_of_name(s, t.name@);
    let r = with_template(s, t);
    if i < s.len() {
        assert(r[i] == t);
    } else {
        assert(r[s.len() as int] == t);
        if has_name(s, t.name@) {
            let j = choose|j: int| 0 <= j < s.len() && #[trigger] s[j].name@ == t.name@;
            assert(s[j].name@ != t.name@);
        }
    }
}

/// The added template itself, with all its fields, is in the list after the
/// addition: in place of the first template of its name, or at the end.
pub proof fn lemma_added_template_kept_whole(s: Seq<Template>, t: Template)
    ensures
        with_template(s, t).contains(t),
        has_name(s, t.name@) ==> with_template(s, t)[first_index_of_name(s, t.name@)] == t,
        !has_name(s, t.name@) ==> with_template(s, t) == s.push(t),
{
    lemma_add_user_template(s, t);
    lemma_first_index_of_name(s, t.name@);
    let i = first_index_of_name(s, t.name@);
    let r = with_template(s, t);
    if i < s.len() {
        assert(r[i] == t);
        assert(has_name(s, t.name@));
    } else {
        assert(r[s.len() as int] == t);
        if has_name(s, t.name@) {
            let j = choose|j: int| 0 <= j < s.len() && #[trigger] s[j].name@ == t.name@;
            assert(s[j].name@ != t.name@);
        }
    }
}

/// The names left by `without_name` are those of `s` other than `name`.
pub proof fn lemma_without_name_names(s: Seq<Template>, name: Seq<char>)
    ensures
        forall|k: Seq<char>| #[trigger] has_name(without_name(s, name), k) <==> (has_name(s, k) && k != name),
    decreases s.len(),
{
    reveal_with_fuel(Seq::<_>::filter, 1);
    if s.len() > 0 {
        let p = s.drop_last();
        lemma_without_name_names(p, name);
        let rp = without_name(p, name);
        let r = without_name(s, name);
        assert forall|k: Seq<char>| #[trigger] has_name(r, k) <==> (has_name(s, k) && k != name) by {
            assert(has_name(rp, k) <==> (has_name(p, k) && k != name));
            if has_name(p, k) {
                let j = choose|j: int| 0 <= j < p.len() && #[trigger] p[j].name@ == k;
                assert(s[j] == p[j]);
            }
            if has_name(s, k) && k != s.last().name@ {
                let j = choose|j: int| 0 <= j < s.len() && #[trigger] s[j].name@ == k;
                assert(p[j] == s[j]);
            }
            if s.last().name@ != name {
                assert(r == rp.push(s.last()));
                if has_name(rp, k) {
                    let j = choose|j: int| 0 <= j < rp.len() && #[trigger] rp[j].name@ == k;
                    assert(r[j] == rp[j]);
                }
                if has_name(r, k) && k != s.last().name@ {
                    let j = choose|j: int| 0 <= j < r.len() && #[trigger] r[j].name@ == k;
                    assert(rp[j] == r[j]);
                }
                if k == s.last().name@ {
                    assert(r[r.len() - 1].name@ == k);
                    assert(s[s.len() - 1].name@ == k);
                }
            } else {
                assert(r == rp);
                if k == s.last().name@ {
                    assert(s[s.len() - 1].name@ == k);
                }
            }
        }
    }
}

/// Removing by name leaves no template of that name and keeps every other
/// name present; removing the same name again changes nothing.
pub proof fn lemma_remove_user_template(s: Seq<Template>, name: Seq<char>)
    ensures
        !has_name(without_name(s, name), name),
        forall|k: Seq<char>|
            k != name ==> (#[trigger] has_name(without_name(s, name), k) <==> has_name(s, k)),
        without_name(without_name(s, name), name) == without_name(s, name),
{
    lemma_without_name_names(s, name);
    lemma_without_absent_name(without_name(s, name), name);
}

/// Adding a template under a name the list does not have, then removing that
/// name, gives the list back.
pub proof fn lemma_add_then_remove(s: Seq<Template>, t: Template)
    requires
        !has_name(s, t.name@),
    ensures
        without_name(with_template(s, t), t.name@) == s,
{
    lemma_first_index_of_name(s, t.name@);
    let i = first_index_of_name(s, t.name@);
    if i < s.len() {
        assert(s[i].name@ == t.name@);
    }
    let r = with_template(s, t);
    assert(r == s.push(t));
    reveal_with_fuel(Seq::<_>::filter, 1);
    assert(r.drop_last() =~= s);
    lemma_without_absent_name(s, t.name@);
}

/// Removing a name that no template has gives the list back.
pub proof fn lemma_without_absent_name(s: Seq<Template>, name: Seq<char>)
    requires
        !has_name(s, name),
    ensures
        without_name(s, name) == s,
    decreases s.len(),
{
    reveal_with_fuel(Seq::<_>::filter, 1);
    if s.len() > 0 {
        let p = s.drop_last();
        assert(!has_name(p, name)) by {
            if has_name(p, name) {
                let j = choose|j: int| 0 <= j < p.len() && #[trigger] p[j].name@ == name;
                assert(s[j] == p[j]);
            }
        }
        lemma_without_absent_name(p, name);
        assert(s[s.len() - 1].name@ != name);
        assert(p.push(s.last()) =~= s);
    } else {
        assert(without_name(s, name) =~= s);
    }
}

/// A mirror prefix gives the same URLs with or without a trailing slash.
pub proof fn lemma_mirror_trailing_slash(url: Seq<char>, prefix: Seq<char>)
    ensures
        mirrored_url(url, Some(prefix + seq!['/'])) == mirrored_url(url, Some(prefix)),
{
    let p2 = prefix + seq!['/'];
    assert(p2.drop_last() =~= prefix);
}

/// Mirroring a URL twice through the same mirror gives what mirroring it once
/// gives, unless the mirror's own prefix (with its trailing slashes collapsed
/// into one) is a GitHub URL.
pub proof fn lemma_mirror_idempotent(url: Seq<char>, prefix: Seq<char>)
    requires
        !is_prefix(github_prefix(), trim_end_char(prefix, '/') + seq!['/']),
    ensures
        mirrored_url(mirrored_url(url, Some(prefix)), Some(prefix)) == mirrored_url(url, Some(prefix)),
{
    let g = github_prefix();
    let p = trim_end_char(prefix, '/') + seq!['/'];
    let once = mirrored_url(url, Some(prefix));
    if is_prefix(g, url) {
        assert(once == p + url);
        if is_prefix(g, once) {
            reveal_strlit("https://github.com/");
            if p.len() >= g.len() {
                assert(p.take(g.len() as int) =~= once.take(g.len() as int));
            } else {
                let k = p.len() as int;
                assert(p[k - 1] == '/');
                assert(once[k - 1] == g[k - 1]);
                assert(once[k] == url[0]);
                assert(url.take(g.len() as int)[0] == url[0]);
                assert(once.take(g.len() as int)[k] == once[k]);
                assert(once.take(g.len() as int)[k - 1] == once[k - 1]);
                assert(false);
            }
        }
    }
}

/// With a mirror set, every GitHub URL is rewritten: the result is the mirror
/// prefix with its trailing slashes collapsed into one, followed by the whole
/// original URL, so it differs from the URL.
pub proof fn lemma_mirror_rewrites_github(url: Seq<char>, prefix: Seq<char>)
    requires
        is_prefix(github_prefix(), url),
    ensures
        mirrored_url(url, Some(prefix)) != url,
        mirrored_url(url, Some(prefix)).len() == trim_end_char(prefix, '/').len() + 1 + url.len(),
        is_prefix(trim_end_char(prefix, '/') + seq!['/'], mirrored_url(url, Some(prefix))),
        mirrored_url(url, Some(prefix)).skip(trim_end_char(prefix, '/').len() + 1int) == url,
{
    let p = trim_end_char(prefix, '/') + seq!['/'];
    let r = mirrored_url(url, Some(prefix));
    assert(r == p + url);
    assert(r.take(p.len() as int) =~= p);
    assert(r.skip(p.len() as int) =~= url);
}

/// Only GitHub URLs are rewritten, and only when a mirror is set; a rewritten
/// URL ends with the original one.
pub proof fn lemma_mirror_scope(url: Seq<char>, mirror: Option<Seq<char>>)
    ensures
        mirror is None || !is_prefix(github_prefix(), url) ==> mirrored_url(url, mirror) == url,
        mirrored_url(url, mirror).len() >= url.len(),
        mirrored_url(url, mirror).skip(mirrored_url(url, mirror).len() - url.len()) == url,
{
    let r = mirrored_url(url, mirror);
    assert(r.skip(r.len() - url.len()) =~= url);
}

/// A mirror set in the user's settings beats the built-in one, and a
/// cleared user mirror falls back to the built-in one; the command line beats
/// both.
pub proof fn lemma_mirror_priority(
    cli_mirror: Option<String>,
    user_mirror: Option<String>,
    builtin: Option<Settings>,
)
    ensures
        cli_mirror is Some ==> mirror_by_priority(cli_mirror, Some(Settings { mirror: user_mirror }), builtin)
            == cli_mirror,
        cli_mirror is None && user_mirror is Some ==> mirror_by_priority(
            cli_mirror,
            Some(Settings { mirror: user_mirror }),
            builtin,
        ) == user_mirror,
        cli_mirror is None && user_mirror is None ==> mirror_by_priority(
            cli_mirror,
            Some(Settings { mirror: user_mirror }),
            builtin,
        ) == mirror_by_priority(None, None, builtin),
{
}

// ─── Creating a project ───

/// How the template of a new project is settled.
#[derive(Debug)]
pub enum TemplateChoice {
    /// The template asked for by name.
    Chosen(Template),
    /// No template has the name asked for.
    NotFound(String),
    /// No name was given: the user is to choose among these (sorted by name).
    Ask(Vec<Template>),
    /// No name was given and there is no template to choose from.
    NoTemplates,
}

/// Settles the template of a new project from all templates (see
/// [`load_all_templates`]) and the name given on the command line, if any.
pub fn resolve_template(builtin: Vec<Template>, user: Vec<Template>, template_name: Option<String>) -> (r:
    TemplateChoice)
    ensures
        ({
            let all = templates_by_name(builtin@ + user@);
            match template_name {
                Some(n) => match r {
                    TemplateChoice::Chosen(t) => all.contains_key(n@) && t@ == all[n@],
                    TemplateChoice::NotFound(m) => m == n && !all.contains_key(n@),
                    _ => false,
                },
                None => match r {
                    TemplateChoice::Ask(list) => builtin@.len() + user@.len() > 0 && list@.len() > 0
                        && sorted_by_name(list@)
                        && templates_by_name(list@) == all,
                    TemplateChoice::NoTemplates => builtin@.len() == 0 && user@.len() == 0,
                    _ => false,
                },
            }
        }),
{
    let ghost b = builtin@;
    let ghost u = user@;
    match template_name {
        Some(n) => {
            match find_template(builtin, user, n.as_str()) {
                Some(t) => TemplateChoice::Chosen(t),
                None => TemplateChoice::NotFound(n),
            }
        },
        None => {
            let all = load_all_templates(builtin, user);
            proof {
                lemma_by_name_domain(all@);
                lemma_by_name_domain(b + u);
                if b.len() + u.len() > 0 {
                    let k = (b + u)[0].name@;
                    assert(has_name(b + u, k));
                    assert(templates_by_name(b + u).contains_key(k));
                    assert(templates_by_name(all@).contains_key(k));
                    assert(has_name(all@, k));
                    assert(all@.len() > 0);
                }
                if all@.len() > 0 {
                    let k = all@[0].name@;
                    assert(has_name(all@, k));
                    assert(templates_by_name(b + u).contains_key(k));
                    assert(has_name(b + u, k));
                }
            }
            if all.len() == 0 {
                TemplateChoice::NoTemplates
            } else {
                TemplateChoice::Ask(all)
            }
        },
    }
}

/// The directory a project goes to: `project_name` joined onto `dir`, or
/// the name itself (relative to the current directory) when there is none.
pub open spec fn target_path(dir: Option<Seq<char>>, project_name: Seq<char>) -> Seq<char> {
    match dir {
        Some(d) => path_join(d, project_name),
        None => project_name,
    }
}

/// The directory a project is created in: the project's name joined onto the
/// directory given, or the name itself, relative to the current directory,
/// when no directory is given.
pub fn target_dir(dir: &Option<String>, project_name: &str) -> (r: String)
    ensures
        r@ == target_path(option_text(*dir), project_name@),
{
    match dir {
        Some(d) => join_path(d.as_str(), project_name),
        None => project_name.to_owned(),
    }
}

} // verus!
