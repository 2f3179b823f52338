//! Emulated Guest Process environment: what a guest process learns about
//! its VM from the variables the emulator sets.
use vstd::prelude::*;
use vstd::string::*;

verus! {

/// The pieces of `s` between occurrences of `sep`, in order, empty pieces
/// included (`""` gives one empty piece).
pub open spec fn split_on(s: Seq<char>, sep: char) -> Seq<Seq<char>>
    decreases s.len(),
{
    if s.len() == 0 {
        seq![Seq::<char>::empty()]
    } else {
        let init = split_on(s.drop_last(), sep);
        if s.last() == sep {
            init.push(Seq::<char>::empty())
        } else {
            init.update(init.len() - 1, init.last().push(s.last()))
        }
    }
}

/// `parts` joined with `sep` between consecutive parts.
pub open spec fn join_with(parts: Seq<Seq<char>>, sep: char) -> Seq<char>
    decreases parts.len(),
{
    if parts.len() <= 1 {
        if parts.len() == 1 {
            parts[0]
        } else {
            Seq::<char>::empty()
        }
    } else {
        join_with(parts.drop_last(), sep).push(sep) + parts.last()
    }
}

/// The character sequences of a list of strings.
pub open spec fn string_views(v: Seq<String>) -> Seq<Seq<char>> {
    v.map_values(|s: String| s@)
}

/// The characters of an optional string.
pub open spec fn option_view(o: Option<String>) -> Option<Seq<char>> {
    match o {
        Some(s) => Some(s@),
        None => None,
    }
}

/// The value of a variable, or the empty string where it is unset.
pub open spec fn value_or_empty(o: Option<String>) -> Seq<char> {
    match o {
        Some(s) => s@,
        None => Seq::<char>::empty(),
    }
}

/// The first item of a comma-separated list, `None` for an unset or empty one.
pub open spec fn first_item(o: Option<String>) -> Option<Seq<char>> {
    match o {
        Some(s) => if s@.len() == 0 {
            None
        } else {
            Some(split_on(s@, ',')[0])
        },
        None => None,
    }
}

/// Splitting always yields at least one piece, and no piece holds `sep`.
pub proof fn lemma_split_pieces(s: Seq<char>, sep: char)
    ensures
        split_on(s, sep).len() >= 1,
        forall|i: int, j: int|
            0 <= i < split_on(s, sep).len() && 0 <= j < split_on(s, sep)[i].len() ==> split_on(s, sep)[i][j]
                != sep,
    decreases s.len(),
{
    if s.len() > 0 {
        lemma_split_pieces(s.drop_last(), sep);
        let init = split_on(s.drop_last(), sep);
        if s.last() != sep {
            let last = init.last().push(s.last());
            assert forall|i: int, j: int|
                0 <= i < split_on(s, sep).len() && 0 <= j < split_on(s, sep)[i].len() implies split_on(s, sep)[i][j]
                != sep by {
                if i == init.len() - 1 {
                    if j < init.last().len() {
                        assert(split_on(s, sep)[i][j] == init[i][j]);
                    }
                } else {
                    assert(split_on(s, sep)[i] == init[i]);
                }
            }
        } else {
            assert forall|i: int, j: int|
                0 <= i < split_on(s, sep).len() && 0 <= j < split_on(s, sep)[i].len() implies split_on(s, sep)[i][j]
                != sep by {
                assert(split_on(s, sep)[i] == init[i]);
            }
        }
    }
}

/// Joining with `sep` after appending one character to the last part is
/// appending that character to the join.
proof fn lemma_join_extend_last(parts: Seq<Seq<char>>, sep: char, c: char)
    requires
        parts.len() >= 1,
    ensures
        join_with(parts.update(parts.len() - 1, parts.last().push(c)), sep) == join_with(parts, sep).push(c),
{
    let q = parts.update(parts.len() - 1, parts.last().push(c));
    if parts.len() == 1 {
    } else {
        assert(q.drop_last() =~= parts.drop_last());
        assert(join_with(q, sep) == join_with(q.drop_last(), sep).push(sep) + q.last());
        assert(join_with(q, sep) =~= join_with(parts, sep).push(c));
    }
}

/// Splitting loses nothing: joining the pieces with the separator gives the
/// original text back.
pub proof fn lemma_join_split(s: Seq<char>, sep: char)
    ensures
        join_with(split_on(s, sep), sep) == s,
    decreases s.len(),
{
    if s.len() > 0 {
        lemma_join_split(s.drop_last(), sep);
        lemma_split_pieces(s.drop_last(), sep);
        let init = split_on(s.drop_last(), sep);
        if s.last() == sep {
            let q = init.push(Seq::<char>::empty());
            assert(q.drop_last() =~= init);
            assert(join_with(q, sep) =~= s.drop_last().push(sep));
            assert(s.drop_last().push(s.last()) =~= s);
        } else {
            lemma_join_extend_last(init, sep, s.last());
            assert(s.drop_last().push(s.last()) =~= s);
        }
    }
}

/// The first piece of a split is the text up to the first `sep` (or all of
/// it, where there is none).
pub proof fn lemma_split_first(s: Seq<char>, sep: char)
    ensures
        split_on(s, sep)[0].len() <= s.len(),
        split_on(s, sep)[0] == s.subrange(0, split_on(s, sep)[0].len() as int),
        forall|j: int| 0 <= j < split_on(s, sep)[0].len() ==> #[trigger] s[j] != sep,
        split_on(s, sep)[0].len() == s.len() || s[split_on(s, sep)[0].len() as int] == sep,
    decreases s.len(),
{
    if s.len() > 0 {
        let t = s.drop_last();
        lemma_split_first(t, sep);
        lemma_split_pieces(t, sep);
        let init = split_on(t, sep);
        let f = init[0];
        assert forall|j: int| 0 <= j < t.len() implies #[trigger] s[j] == t[j] by {}
        if init.len() > 1 {
            assert(split_on(s, sep)[0] == f);
            assert(f.len() < t.len()) by {
                assert(f.len() == t.len() ==> false) by {
                    if f.len() == t.len() {
                        lemma_join_split(t, sep);
                        lemma_join_len(init, sep);
                    }
                }
            }
            assert(s.subrange(0, f.len() as int) =~= t.subrange(0, f.len() as int));
            assert forall|j: int| 0 <= j < f.len() implies #[trigger] s[j] != sep by {
                assert(s[j] == t[j]);
            }
        } else {
            lemma_join_split(t, sep);
            assert(f == t);
            if s.last() == sep {
                assert(split_on(s, sep)[0] == f);
                assert(s.subrange(0, f.len() as int) =~= t);
                assert forall|j: int| 0 <= j < f.len() implies #[trigger] s[j] != sep by {
                    assert(s[j] == t[j]);
                }
            } else {
                assert(split_on(s, sep)[0] == f.push(s.last()));
                assert(s.subrange(0, s.len() as int) =~= t.push(s.last()));
                assert forall|j: int| 0 <= j < s.len() implies #[trigger] s[j] != sep by {
                    if j < t.len() {
                        assert(s[j] == t[j]);
                        assert(t[j] == f[j]);
                    }
                }
            }
        }
    }
}

/// Joining two or more parts is longer than the first part alone.
proof fn lemma_join_len(parts: Seq<Seq<char>>, sep: char)
    requires
        parts.len() >= 2,
    ensures
        join_with(parts, sep).len() > parts[0].len(),
    decreases parts.len(),
{
    let init = parts.drop_last();
    assert(init[0] == parts[0]);
    if parts.len() > 2 {
        lemma_join_len(init, sep);
    } else {
        assert(join_with(init, sep) == init[0]);
    }
    assert(join_with(parts, sep) == join_with(init, sep).push(sep) + parts.last());
}

/// Splits `s` at every `sep` (as `str::split` does).
pub fn split_list(s: &str, sep: char) -> (r: Vec<String>)
    ensures
        string_views(r@) == split_on(s@, sep),
        r@.len() >= 1,
{
    let n = s.unicode_len();
    let mut parts: Vec<String> = Vec::new();
    let mut start: usize = 0;
    let mut i: usize = 0;
    assert(s@.subrange(0, 0) =~= Seq::<char>::empty());
    assert(string_views(parts@).push(s@.subrange(0, 0)) =~= seq![Seq::<char>::empty()]);
    while i < n
        invariant
            n == s@.len(),
            start <= i <= n,
            string_views(parts@).push(s@.subrange(start as int, i as int)) == split_on(
                s@.subrange(0, i as int),
                sep,
            ),
        decreases n - i,
    {
        let c = s.get_char(i);
        let ghost prefix = s@.subrange(0, i as int + 1);
        let ghost before = string_views(parts@);
        let ghost cur = s@.subrange(start as int, i as int);
        assert(prefix.drop_last() =~= s@.subrange(0, i as int));
        if c == sep {
            let piece = s.substring_char(start, i).to_owned();
            parts.push(piece);
            start = i + 1;
            assert(string_views(parts@) =~= before.push(cur));
            assert(s@.subrange(start as int, i as int + 1) =~= Seq::<char>::empty());
        } else {
            assert(s@.subrange(start as int, i as int + 1) =~= cur.push(c));
            assert(before.push(cur).update(before.len() as int, cur.push(c)) =~= before.push(cur.push(c)));
        }
        i = i + 1;
    }
    assert(s@.subrange(0, n as int) =~= s@);
    let ghost before = string_views(parts@);
    let last = s.substring_char(start, n).to_owned();
    parts.push(last);
    assert(string_views(parts@) =~= before.push(last@));
    parts
}

/// Emulated Guest Process Environment.
#[derive(Debug)]
pub struct EgpEnv {
    /// Data folders for the entire VM, visible to all its processes. Never empty.
    pub vm_data_folders: Vec<String>,
    /// Data folders for this process only. Never empty.
    pub process_data_folders: Vec<String>,
    /// Region where the VM runs; empty if not set.
    pub region: String,
    /// Data center where the VM runs; empty if not set.
    pub dc: String,
    /// Cluster where the VM runs; empty if not set.
    pub cluster: String,
    /// Host where the VM runs; empty if not set.
    pub host: String,
    /// Name of the VM. Never empty.
    pub vm_name: String,
    /// Owner of the VM; empty if not set.
    pub vm_owner: String,
    /// Role of the VM (VMs with the same functionality share it). Never
    /// empty: the VM name where the emulator sets none.
    pub vm_role: String,
    /// First address of the VM's private IPv4 list, `None` if none is given.
    pub primary_ip_v4: Option<String>,
    /// First address of the VM's private IPv6 list, `None` if none is given.
    pub primary_ip_v6: Option<String>,
}

/// The variables the emulator sets for a guest process, as read from its
/// environment (`None` where a variable is unset or not Unicode).
#[derive(Clone, Debug, Default)]
pub struct EgpEnvVars {
    /// `EVM_DATA_FOLDER`: comma-separated VM data folders.
    pub vm_data_folder: Option<String>,
    /// `EGP_DATA_FOLDER`: comma-separated process data folders.
    pub process_data_folder: Option<String>,
    /// `EVM_LOC_REGION`.
    pub region: Option<String>,
    /// `EVM_LOC_DC`.
    pub dc: Option<String>,
    /// `EVM_LOC_CLUSTER`.
    pub cluster: Option<String>,
    /// `EVM_LOC_HOST`.
    pub host: Option<String>,
    /// `EVM_NAME`.
    pub vm_name: Option<String>,
    /// `EVM_OWNER`.
    pub vm_owner: Option<String>,
    /// `EVM_ROLE`.
    pub vm_role: Option<String>,
    /// `EVM_PRIVATE_IPV4`: comma-separated addresses.
    pub private_ipv4: Option<String>,
    /// `EVM_PRIVATE_IPV6`: comma-separated addresses.
    pub private_ipv6: Option<String>,
}

/// The value of a variable, or the empty string where it is unset.
pub fn value_or_default(o: &Option<String>) -> (r: String)
    ensures
        r@ == value_or_empty(*o),
{
    match o {
        Some(s) => s.clone(),
        None => String::new(),
    }
}

/// The first item of a comma-separated list; `None` if it is unset or empty.
pub fn first_list_item(o: &Option<String>) -> (r: Option<String>)
    ensures
        option_view(r) == first_item(*o),
{
    match o {
        None => None,
        Some(s) => {
            if s.as_str().is_empty() {
                None
            } else {
                let parts = split_list(s.as_str(), ',');
                Some(parts[0].clone())
            }
        },
    }
}

/// The role a VM gets: its role variable, or its name where that is unset or empty.
pub open spec fn role_of(vars: EgpEnvVars) -> Seq<char> {
    if value_or_empty(vars.vm_role).len() == 0 {
        value_or_empty(vars.vm_name)
    } else {
        value_or_empty(vars.vm_role)
    }
}

/// The variables are enough to build an environment: both data-folder lists
/// and a non-empty VM name are set.
pub open spec fn vars_complete(vars: EgpEnvVars) -> bool {
    &&& vars.vm_data_folder is Some
    &&& vars.process_data_folder is Some
    &&& value_or_empty(vars.vm_name).len() > 0
}

/// Why the emulator's variables are not enough to build an environment.
#[derive(Clone, Copy, Debug, PartialEq, Eq, Structural)]
pub enum EgpEnvError {
    /// `EVM_DATA_FOLDER` or `EGP_DATA_FOLDER` is unset.
    MissingDataFolder,
    /// `EVM_NAME` is unset or empty.
    MissingVmName,
}

/// `env` is the environment that `vars` describe.
pub open spec fn built_from(env: EgpEnv, vars: EgpEnvVars) -> bool {
    &&& string_views(env.vm_data_folders@) == split_on(value_or_empty(vars.vm_data_folder), ',')
    &&& string_views(env.process_data_folders@) == split_on(value_or_empty(vars.process_data_folder), ',')
    &&& env.region@ == value_or_empty(vars.region)
    &&& env.dc@ == value_or_empty(vars.dc)
    &&& env.cluster@ == value_or_empty(vars.cluster)
    &&& env.host@ == value_or_empty(vars.host)
    &&& env.vm_name@ == value_or_empty(vars.vm_name)
    &&& env.vm_owner@ == value_or_empty(vars.vm_owner)
    &&& env.vm_role@ == role_of(vars)
    &&& option_view(env.primary_ip_v4) == first_item(vars.private_ipv4)
    &&& option_view(env.primary_ip_v6) == first_item(vars.private_ipv6)
}

/// What a built environment holds, field by field, in terms of the variables:
/// a set location, name or owner variable is copied and an unset one gives
/// the empty string; the role is the role variable, or the VM name where the
/// role is unset or empty (whatever the owner); each folder list joins back
/// to its variable with commas and no folder holds a comma; a primary IP is
/// `None` for an unset or empty list and otherwise the text of its list up to
/// the first comma.
pub proof fn lemma_built_from_fields(env: EgpEnv, vars: EgpEnvVars)
    requires
        built_from(env, vars),
    ensures
        vars.region matches Some(v) ==> env.region@ == v@,
        vars.region is None ==> env.region@.len() == 0,
        vars.dc matches Some(v) ==> env.dc@ == v@,
        vars.dc is None ==> env.dc@.len() == 0,
        vars.cluster matches Some(v) ==> env.cluster@ == v@,
        vars.cluster is None ==> env.cluster@.len() == 0,
        vars.host matches Some(v) ==> env.host@ == v@,
        vars.host is None ==> env.host@.len() == 0,
        vars.vm_owner matches Some(v) ==> env.vm_owner@ == v@,
        vars.vm_owner is None ==> env.vm_owner@.len() == 0,
        vars.vm_name matches Some(v) ==> env.vm_name@ == v@,
        vars.vm_role matches Some(r) ==> (r@.len() > 0 ==> env.vm_role@ == r@),
        (vars.vm_role is None || vars.vm_role->0@.len() == 0) ==> (vars.vm_name matches Some(n)
            && env.vm_role@ == n@) || (vars.vm_name is None && env.vm_role@.len() == 0),
        vars.vm_data_folder matches Some(v) ==> join_with(string_views(env.vm_data_folders@), ',')
            == v@,
        vars.process_data_folder matches Some(v) ==> join_with(
            string_views(env.process_data_folders@),
            ',',
        ) == v@,
        forall|i: int, j: int|
            0 <= i < env.vm_data_folders@.len() && 0 <= j < env.vm_data_folders@[i]@.len()
                ==> env.vm_data_folders@[i]@[j] != ',',
        forall|i: int, j: int|
            0 <= i < env.process_data_folders@.len() && 0 <= j
                < env.process_data_folders@[i]@.len() ==> env.process_data_folders@[i]@[j] != ',',
        (vars.private_ipv4 is None || vars.private_ipv4->0@.len() == 0) <==> env.primary_ip_v4 is None,
        (vars.private_ipv6 is None || vars.private_ipv6->0@.len() == 0) <==> env.primary_ip_v6 is None,
        env.primary_ip_v4 matches Some(t) ==> is_first_item(vars.private_ipv4->0@, t@),
        env.primary_ip_v6 matches Some(t) ==> is_first_item(vars.private_ipv6->0@, t@),
{
    let vf = value_or_empty(vars.vm_data_folder);
    let pf = value_or_empty(vars.process_data_folder);
    lemma_join_split(vf, ',');
    lemma_join_split(pf, ',');
    lemma_split_pieces(vf, ',');
    lemma_split_pieces(pf, ',');
    assert forall|i: int, j: int|
        0 <= i < env.vm_data_folders@.len() && 0 <= j < env.vm_data_folders@[i]@.len()
            implies env.vm_data_folders@[i]@[j] != ',' by {
        assert(string_views(env.vm_data_folders@)[i] == env.vm_data_folders@[i]@);
    }
    assert forall|i: int, j: int|
        0 <= i < env.process_data_folders@.len() && 0 <= j < env.process_data_folders@[i]@.len()
            implies env.process_data_folders@[i]@[j] != ',' by {
        assert(string_views(env.process_data_folders@)[i] == env.process_data_folders@[i]@);
    }
    if let Some(v) = vars.private_ipv4 {
        lemma_split_first(v@, ',');
    }
    if let Some(v) = vars.private_ipv6 {
        lemma_split_first(v@, ',');
    }
}

/// `t` is the text of the comma-separated list `s` up to its first comma
/// (all of `s` where there is none).
pub open spec fn is_first_item(s: Seq<char>, t: Seq<char>) -> bool {
    &&& t.len() <= s.len()
    &&& t == s.subrange(0, t.len() as int)
    &&& forall|j: int| 0 <= j < t.len() ==> #[trigger] t[j] != ','
    &&& (t.len() == s.len() || s[t.len() as int] == ',')
}

impl EgpEnv {
    /// Builds the environment from the emulator's variables, or says which
    /// required one is missing (the data folders are looked at first).
    pub fn try_from_vars(vars: &EgpEnvVars) -> (r: Result<EgpEnv, EgpEnvError>)
        ensures
            r is Ok <==> vars_complete(*vars),
            r == Err::<EgpEnv, EgpEnvError>(EgpEnvError::MissingDataFolder) <==> (
            vars.vm_data_folder is None || vars.process_data_folder is None),
            r matches Err(e) ==> e == EgpEnvError::MissingDataFolder || e
                == EgpEnvError::MissingVmName,
            r matches Ok(env) ==> built_from(env, *vars) && env.vm_data_folders@.len() >= 1
                && env.process_data_folders@.len() >= 1 && env.vm_name@.len() > 0
                && env.vm_role@.len() > 0,
    {
        if vars.vm_data_folder.is_none() || vars.process_data_folder.is_none() {
            return Err(EgpEnvError::MissingDataFolder);
        }
        match &vars.vm_name {
            None => Err(EgpEnvError::MissingVmName),
            Some(name) => {
                if name.as_str().is_empty() {
                    Err(EgpEnvError::MissingVmName)
                } else {
                    Ok(EgpEnv::from_vars(vars))
                }
            },
        }
    }

    /// Builds the environment from the emulator's variables.
    pub fn from_vars(vars: &EgpEnvVars) -> (env: EgpEnv)
        requires
            vars_complete(*vars),
        ensures
            string_views(env.vm_data_folders@) == split_on(value_or_empty(vars.vm_data_folder), ','),
            string_views(env.process_data_folders@) == split_on(
                value_or_empty(vars.process_data_folder),
                ',',
            ),
            env.region@ == value_or_empty(vars.region),
            env.dc@ == value_or_empty(vars.dc),
            env.cluster@ == value_or_empty(vars.cluster),
            env.host@ == value_or_empty(vars.host),
            env.vm_name@ == value_or_empty(vars.vm_name),
            env.vm_owner@ == value_or_empty(vars.vm_owner),
            env.vm_role@ == role_of(*vars),
            option_view(env.primary_ip_v4) == first_item(vars.private_ipv4),
            option_view(env.primary_ip_v6) == first_item(vars.private_ipv6),
            built_from(env, *vars),
            env.vm_data_folders@.len() >= 1,
            env.process_data_folders@.len() >= 1,
            env.vm_name@.len() > 0,
            env.vm_role@.len() > 0,
    {
        let vm_name = value_or_default(&vars.vm_name);
        let role = value_or_default(&vars.vm_role);
        let vm_role = if role.as_str().is_empty() {
            vm_name.clone()
        } else {
            role
        };
        let vm_data = value_or_default(&vars.vm_data_folder);
        let process_data = value_or_default(&vars.process_data_folder);
        EgpEnv {
            vm_data_folders: split_list(vm_data.as_str(), ','),
            process_data_folders: split_list(process_data.as_str(), ','),
            region: value_or_default(&vars.region),
            dc: value_or_default(&vars.dc),
            cluster: value_or_default(&vars.cluster),
            host: value_or_default(&vars.host),
            vm_name,
            vm_owner: value_or_default(&vars.vm_owner),
            vm_role,
            primary_ip_v4: first_list_item(&vars.private_ipv4),
            primary_ip_v6: first_list_item(&vars.private_ipv6),
        }
    }
}

} // verus!
