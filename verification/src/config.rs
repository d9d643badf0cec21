//! The configuration: where its files are, what is in them, and what holds
//! where they are missing.

use vstd::prelude::*;

use crate::profile;
use crate::profile::Profile;
use crate::text;
use crate::text_lemmas;

verus! {

/// `name` below the directory `base`, as paths are joined on Unix.
pub open spec fn path_of(base: Seq<char>, name: Seq<char>) -> Seq<char> {
    if name.len() > 0 && name[0] == '/' {
        name
    } else if base.len() == 0 || base.last() == '/' {
        base + name
    } else {
        base + "/"@ + name
    }
}

/// A text that may be missing.
pub open spec fn optional_view(s: Option<&str>) -> Option<Seq<char>> {
    match s {
        Some(t) => Some(t@),
        None => None,
    }
}

/// The home directory, or the current one where none is set.
pub open spec fn home_of(home: Option<Seq<char>>) -> Seq<char> {
    match home {
        Some(h) => h,
        None => "."@,
    }
}

/// The configuration directory, by the values of `XDG_CONFIG_HOME` and `HOME`.
pub open spec fn config_dir_of(xdg: Option<Seq<char>>, home: Option<Seq<char>>) -> Seq<char> {
    match xdg {
        Some(x) if x.len() > 0 => path_of(x, "sony-xm4-tray"@),
        _ => path_of(path_of(home_of(home), ".config"@), "sony-xm4-tray"@),
    }
}

/// The configuration directory that does not depend on `XDG_CONFIG_HOME`.
pub open spec fn former_dir_of(home: Option<Seq<char>>) -> Seq<char> {
    path_of(path_of(home_of(home), ".config"@), "sony-xm4-tray"@)
}

/// The address of the device: from the environment if it is set there, else
/// what the file holds, without the white space around it.
pub open spec fn loaded_mac(env: Option<Seq<char>>, file: Option<Seq<char>>) -> Seq<char> {
    match (env, file) {
        (Some(m), _) if !text::is_blank(m) => text::trimmed(m),
        (_, Some(s)) => text::trimmed(s),
        (_, None) => Seq::empty(),
    }
}

/// The profile that a file names; noise cancelling if it names none.
pub open spec fn loaded_profile(file: Option<Seq<char>>) -> Profile {
    match file {
        Some(s) if text::trimmed(s) == profile::key_of(Profile::WindNoiseCancelling) => {
            Profile::WindNoiseCancelling
        },
        Some(s) if text::trimmed(s) == profile::key_of(Profile::AmbientSound) => {
            Profile::AmbientSound
        },
        Some(s) if text::trimmed(s) == profile::key_of(Profile::NoAnc) => Profile::NoAnc,
        _ => Profile::NoiseCancelling,
    }
}

/// Whether the profile is applied on connecting: as the file says, and where
/// there is no file it is.
pub open spec fn loaded_auto_apply(file: Option<Seq<char>>) -> bool {
    match file {
        Some(s) => text::trimmed(s) == "1"@,
        None => true,
    }
}

/// What the file of the profile holds.
pub open spec fn profile_contents(p: Profile) -> Seq<char> {
    profile::key_of(p) + "\n"@
}

/// What the file of the address holds.
pub open spec fn mac_contents(mac: Seq<char>) -> Seq<char> {
    mac + "\n"@
}

/// What the file of the automatic application holds.
pub open spec fn auto_apply_contents(on: bool) -> Seq<char> {
    if on {
        "1\n"@
    } else {
        "0\n"@
    }
}

/// A file to write, in a directory that may have to be made first.
#[derive(Debug)]
pub struct ConfigFile {
    pub dir: String,
    pub path: String,
    pub contents: String,
}

/// A file to write, as a model.
pub struct ConfigFileModel {
    pub dir: Seq<char>,
    pub path: Seq<char>,
    pub contents: Seq<char>,
}

impl View for ConfigFile {
    type V = ConfigFileModel;

    open spec fn view(&self) -> ConfigFileModel {
        ConfigFileModel { dir: self.dir@, path: self.path@, contents: self.contents@ }
    }
}

/// A file of the given name and contents in a directory.
pub open spec fn file_in(dir: Seq<char>, name: Seq<char>, contents: Seq<char>) -> ConfigFileModel {
    ConfigFileModel { dir, path: path_of(dir, name), contents }
}

/// The files to take over from the directory below the home directory: the
/// directory to make, what is copied where if it exists, and what is said of
/// it.
#[derive(Debug)]
pub struct Migration {
    pub dir: String,
    pub copies: Vec<(String, String)>,
    pub notice: String,
}

/// `name` below the directory `base`.
pub fn join_path(base: &str, name: &str) -> (path: String)
    ensures
        path@ == path_of(base@, name@),
{
    if !name.is_empty() && name.get_char(0) == '/' {
        return name.to_string();
    }
    let size = base.unicode_len();
    if size == 0 || base.get_char(size - 1) == '/' {
        base.to_string().concat(name)
    } else {
        base.to_string().concat("/").concat(name)
    }
}

/// The configuration directory, by the values of `XDG_CONFIG_HOME` and `HOME`.
pub fn config_dir(xdg: Option<&str>, home: Option<&str>) -> (dir: String)
    ensures
        dir@ == config_dir_of(optional_view(xdg), optional_view(home)),
{
    match xdg {
        Some(x) => {
            if !x.is_empty() {
                return join_path(x, "sony-xm4-tray");
            }
        },
        None => {},
    }
    let base = match home {
        Some(h) => h,
        None => ".",
    };
    join_path(join_path(base, ".config").as_str(), "sony-xm4-tray")
}

/// The configuration directory that does not depend on `XDG_CONFIG_HOME`.
pub fn former_config_dir(home: Option<&str>) -> (dir: String)
    ensures
        dir@ == former_dir_of(optional_view(home)),
{
    let base = match home {
        Some(h) => h,
        None => ".",
    };
    join_path(join_path(base, ".config").as_str(), "sony-xm4-tray")
}

/// What to take over from the directory below the home directory, once
/// `XDG_CONFIG_HOME` names another place. Nothing is, where the configuration
/// directory exists or the other one does not.
pub fn migrate_config(
    xdg: Option<&str>,
    home: Option<&str>,
    present: bool,
    former_present: bool,
) -> (migration: Option<Migration>)
    ensures
        migration is Some <==> !present && former_present,
        migration matches Some(m) ==> ({
            let to = config_dir_of(optional_view(xdg), optional_view(home));
            let from = former_dir_of(optional_view(home));
            &&& m.dir@ == to
            &&& m.copies@.len() == 2
            &&& m.copies@[0].0@ == path_of(from, "mac"@)
            &&& m.copies@[0].1@ == path_of(to, "mac"@)
            &&& m.copies@[1].0@ == path_of(from, "profile"@)
            &&& m.copies@[1].1@ == path_of(to, "profile"@)
            &&& m.notice@ == "Config migrada de "@ + from
        }),
{
    if present || !former_present {
        return None;
    }
    let dir = config_dir(xdg, home);
    let former = former_config_dir(home);
    let mut copies: Vec<(String, String)> = Vec::new();
    copies.push((join_path(former.as_str(), "mac"), join_path(dir.as_str(), "mac")));
    copies.push((join_path(former.as_str(), "profile"), join_path(dir.as_str(), "profile")));
    let notice = "Config migrada de ".to_string().concat(former.as_str());
    Some(Migration { dir, copies, notice })
}

/// The address of the device, by the value of `XM4_MAC` and the file of the
/// address.
pub fn load_mac(env: Option<&str>, file: Option<&str>) -> (mac: String)
    ensures
        mac@ == loaded_mac(optional_view(env), optional_view(file)),
{
    match env {
        Some(m) => {
            if !text::blank(m) {
                return text::trim(m).to_string();
            }
        },
        None => {},
    }
    match file {
        Some(s) => text::trim(s).to_string(),
        None => String::new(),
    }
}

/// The profile that a file names; noise cancelling if it names none.
pub fn load_profile(file: Option<&str>) -> (p: Profile)
    ensures
        p == loaded_profile(optional_view(file)),
{
    match file {
        Some(s) => {
            let found = Profile::from_key(text::trim(s));
            proof {
                assert(profile::key_of(Profile::NoiseCancelling) == text::trimmed(s@) <==> found
                    == Some(Profile::NoiseCancelling));
                assert(profile::key_of(Profile::WindNoiseCancelling) == text::trimmed(s@) <==> found
                    == Some(Profile::WindNoiseCancelling));
                assert(profile::key_of(Profile::AmbientSound) == text::trimmed(s@) <==> found
                    == Some(Profile::AmbientSound));
                assert(profile::key_of(Profile::NoAnc) == text::trimmed(s@) <==> found == Some(
                    Profile::NoAnc,
                ));
            }
            match found {
                Some(p) => p,
                None => Profile::NoiseCancelling,
            }
        },
        None => Profile::NoiseCancelling,
    }
}

/// Whether the profile is applied on connecting.
pub fn load_auto_apply(file: Option<&str>) -> (on: bool)
    ensures
        on == loaded_auto_apply(optional_view(file)),
{
    match file {
        Some(s) => text::same(text::trim(s), "1"),
        None => true,
    }
}

/// The file that keeps the profile.
pub fn save_profile(dir: &str, profile: Profile) -> (file: ConfigFile)
    ensures
        file@ == file_in(dir@, "profile"@, profile_contents(profile)),
{
    ConfigFile {
        dir: dir.to_string(),
        path: join_path(dir, "profile"),
        contents: profile.key().to_string().concat("\n"),
    }
}

/// The file that keeps the address of the device.
pub fn save_mac(dir: &str, mac: &str) -> (file: ConfigFile)
    ensures
        file@ == file_in(dir@, "mac"@, mac_contents(mac@)),
{
    ConfigFile {
        dir: dir.to_string(),
        path: join_path(dir, "mac"),
        contents: mac.to_string().concat("\n"),
    }
}

/// The file that keeps whether the profile is applied on connecting.
pub fn save_auto_apply(dir: &str, on: bool) -> (file: ConfigFile)
    ensures
        file@ == file_in(dir@, "autoapply"@, auto_apply_contents(on)),
{
    let contents = if on {
        "1\n"
    } else {
        "0\n"
    };
    ConfigFile {
        dir: dir.to_string(),
        path: join_path(dir, "autoapply"),
        contents: contents.to_string(),
    }
}

/// Without `XDG_CONFIG_HOME` the configuration directory is the one below the
/// home directory.
pub proof fn law_one_directory(xdg: Option<Seq<char>>, home: Option<Seq<char>>)
    requires
        xdg matches Some(x) ==> x.len() == 0,
    ensures
        config_dir_of(xdg, home) == former_dir_of(home),
{
}

/// The profile that was saved is the profile that is loaded.
pub proof fn law_profile_kept(p: Profile)
    ensures
        loaded_profile(Some(profile_contents(p))) == p,
{
    reveal_strlit("\n");
    reveal_strlit("noise-cancelling");
    reveal_strlit("wind-cancelling");
    reveal_strlit("ambient-sound");
    reveal_strlit("disable");
    let key = profile::key_of(p);
    assert(profile_contents(p) =~= key.push('\n'));
    text_lemmas::lemma_trimmed_push(key, '\n');
    text_lemmas::lemma_trimmed_same(key);
    profile::law_keys_distinct(p, Profile::NoiseCancelling);
    profile::law_keys_distinct(p, Profile::WindNoiseCancelling);
    profile::law_keys_distinct(p, Profile::AmbientSound);
    profile::law_keys_distinct(p, Profile::NoAnc);
}

/// The address that was saved is the address that is loaded, but for the white
/// space around it, unless the environment sets one.
pub proof fn law_mac_kept(mac: Seq<char>, env: Option<Seq<char>>)
    ensures
        loaded_mac(env, Some(mac_contents(mac))) == match env {
            Some(m) if !text::is_blank(m) => text::trimmed(m),
            _ => text::trimmed(mac),
        },
{
    reveal_strlit("\n");
    assert(mac_contents(mac) =~= mac.push('\n'));
    text_lemmas::lemma_trimmed_push(mac, '\n');
}

/// The choice to apply the profile on connecting is loaded as it was saved.
pub proof fn law_auto_apply_kept(on: bool)
    ensures
        loaded_auto_apply(Some(auto_apply_contents(on))) == on,
{
    reveal_strlit("1\n");
    reveal_strlit("0\n");
    reveal_strlit("1");
    let contents = auto_apply_contents(on);
    let digit = contents.drop_last();
    assert(contents =~= digit.push('\n'));
    text_lemmas::lemma_trimmed_push(digit, '\n');
    text_lemmas::lemma_trimmed_same(digit);
    assert(on ==> digit =~= "1"@);
    assert(!on ==> digit[0] != "1"@[0]);
}

/// An address that is loaded has no white space around it.
pub proof fn law_loaded_mac_trimmed(env: Option<Seq<char>>, file: Option<Seq<char>>)
    ensures
        text::trimmed(loaded_mac(env, file)) == loaded_mac(env, file),
{
    match (env, file) {
        (Some(m), _) if !text::is_blank(m) => {
            text_lemmas::lemma_trimmed_twice(m);
        },
        (_, Some(s)) => {
            text_lemmas::lemma_trimmed_twice(s);
        },
        _ => {},
    }
}

/// A name below a directory is the directory, one slash, and the name; a slash
/// that ends the directory is not doubled, and a name that starts with a slash
/// stands alone.
pub proof fn law_path(base: Seq<char>, name: Seq<char>)
    ensures
        name.len() > 0 && name[0] == '/' ==> path_of(base, name) == name,
        name.len() == 0 || name[0] != '/' ==> {
            &&& base.is_prefix_of(path_of(base, name))
            &&& name.is_suffix_of(path_of(base, name))
            &&& base.len() == 0 || base.last() == '/' ==> path_of(base, name).len() == base.len()
                + name.len()
            &&& base.len() > 0 && base.last() != '/' ==> path_of(base, name).len() == base.len() + 1
                + name.len() && path_of(base, name)[base.len() as int] == '/'
        },
{
    reveal_strlit("/");
    let path = path_of(base, name);
    if name.len() == 0 || name[0] != '/' {
        assert(path.subrange(0, base.len() as int) =~= base);
        assert(path.subrange(path.len() - name.len(), path.len() as int) =~= name);
    }
}

/// The configuration is kept in `sony-xm4-tray`, in the directory that
/// `XDG_CONFIG_HOME` names, or else in `.config` below the home directory, which
/// is the current one where none is set.
pub proof fn law_directories(x: Seq<char>, h: Seq<char>, home: Option<Seq<char>>)
    requires
        x.len() > 0 && x.last() != '/',
        h.len() > 0 && h.last() != '/',
    ensures
        config_dir_of(Some(x), home) == x + "/sony-xm4-tray"@,
        config_dir_of(Some(x.push('/')), home) == x + "/sony-xm4-tray"@,
        config_dir_of(None, Some(h)) == h + "/.config/sony-xm4-tray"@,
        config_dir_of(None, Some(h.push('/'))) == h + "/.config/sony-xm4-tray"@,
        config_dir_of(Some(Seq::empty()), home) == config_dir_of(None, home),
        config_dir_of(None, None) == "./.config/sony-xm4-tray"@,
        config_dir_of(None, Some(Seq::empty())) == ".config/sony-xm4-tray"@,
        former_dir_of(home) == config_dir_of(None, home),
{
    reveal_strlit("/");
    reveal_strlit(".");
    reveal_strlit(".config");
    reveal_strlit("sony-xm4-tray");
    reveal_strlit("/sony-xm4-tray");
    reveal_strlit("/.config/sony-xm4-tray");
    reveal_strlit(".config/sony-xm4-tray");
    reveal_strlit("./.config/sony-xm4-tray");
    assert(config_dir_of(Some(x), home) =~= x + "/sony-xm4-tray"@);
    assert(config_dir_of(Some(x.push('/')), home) =~= x + "/sony-xm4-tray"@);
    assert(path_of(h, ".config"@) =~= h + "/.config"@) by {
        reveal_strlit("/.config");
    }
    assert(path_of(h.push('/'), ".config"@) =~= path_of(h, ".config"@));
    assert(path_of(h, ".config"@).last() == 'g');
    assert(config_dir_of(None, Some(h)) =~= h + "/.config/sony-xm4-tray"@);
    assert(config_dir_of(None, None) =~= "./.config/sony-xm4-tray"@) by {
        assert(path_of("."@, ".config"@).last() == 'g');
    }
    assert(path_of(Seq::empty(), ".config"@) =~= ".config"@);
    assert(config_dir_of(None, Some(Seq::empty())) =~= ".config/sony-xm4-tray"@);
}

/// Whatever they are, the directories of the environment are where the
/// configuration lies below.
pub proof fn law_directories_below(x: Seq<char>, h: Seq<char>, home: Option<Seq<char>>)
    ensures
        x.len() > 0 ==> config_dir_of(Some(x), home) == path_of(x, "sony-xm4-tray"@),
        config_dir_of(None, Some(h)) == path_of(path_of(h, ".config"@), "sony-xm4-tray"@),
        former_dir_of(Some(h)) == path_of(path_of(h, ".config"@), "sony-xm4-tray"@),
{
}

/// An address in the environment decides, whether or not there is a file, unless
/// it is blank.
pub proof fn law_environment_first(m: Seq<char>, file: Option<Seq<char>>)
    requires
        exists|i: int| 0 <= i < m.len() && !text::is_white(#[trigger] m[i]),
    ensures
        loaded_mac(Some(m), file) == text::trimmed(m),
        loaded_mac(Some(m), file).len() > 0,
{
    text_lemmas::law_blank(m);
}

/// Without an address in the environment the file decides, and without a file
/// there is none.
pub proof fn law_file_otherwise(env: Option<Seq<char>>, s: Seq<char>)
    requires
        env matches Some(m) ==> forall|i: int|
            0 <= i < m.len() ==> text::is_white(#[trigger] m[i]),
    ensures
        loaded_mac(env, Some(s)) == text::trimmed(s),
        loaded_mac(env, None) == Seq::<char>::empty(),
{
    if let Some(m) = env {
        text_lemmas::law_blank(m);
    }
}

/// A file with the key of a profile, whatever white space is around it, loads
/// that profile; one with anything else, or none, loads noise cancelling.
pub proof fn law_profile_loaded(s: Seq<char>, p: Profile)
    ensures
        text::trimmed(s) == profile::key_of(p) ==> loaded_profile(Some(s)) == p,
        loaded_profile(Some(s)) != Profile::NoiseCancelling ==> text::trimmed(s) == profile::key_of(
            loaded_profile(Some(s)),
        ),
        loaded_profile(None) == Profile::NoiseCancelling,
{
    profile::law_keys_distinct(p, Profile::NoiseCancelling);
    profile::law_keys_distinct(p, Profile::WindNoiseCancelling);
    profile::law_keys_distinct(p, Profile::AmbientSound);
    profile::law_keys_distinct(p, Profile::NoAnc);
}

/// The profile is applied on connecting unless a file says otherwise, and a file
/// says so with a one, whatever white space is around it.
pub proof fn law_auto_apply_loaded(s: Seq<char>)
    ensures
        loaded_auto_apply(None),
        loaded_auto_apply(Some(s)) <==> text::trimmed(s) == seq!['1'],
{
    reveal_strlit("1");
    assert("1"@ =~= seq!['1']);
}

/// A file lies in the directory it is saved in, under its name, and holds its
/// value on a line of its own.
pub proof fn law_saved_files(
    dir: Seq<char>,
    name: Seq<char>,
    contents: Seq<char>,
    p: Profile,
    mac: Seq<char>,
    on: bool,
)
    ensures
        file_in(dir, name, contents).dir == dir,
        file_in(dir, name, contents).path == path_of(dir, name),
        file_in(dir, name, contents).contents == contents,
        profile_contents(p) == profile::key_of(p).push('\n'),
        mac_contents(mac) == mac.push('\n'),
        auto_apply_contents(on) == seq![
            if on {
                '1'
            } else {
                '0'
            },
            '\n',
        ],
{
    reveal_strlit("\n");
    reveal_strlit("1\n");
    reveal_strlit("0\n");
    assert(profile_contents(p) =~= profile::key_of(p).push('\n'));
    assert(mac_contents(mac) =~= mac.push('\n'));
    assert("1\n"@ =~= seq!['1', '\n']);
    assert("0\n"@ =~= seq!['0', '\n']);
}

/// Files and optional texts are seen as they are.
pub proof fn law_config_views(file: ConfigFile, s: &str)
    ensures
        file@.dir == file.dir@,
        file@.path == file.path@,
        file@.contents == file.contents@,
        optional_view(Some(s)) == Some(s@),
        optional_view(None) is None,
{
}

} // verus!
