use vstd::prelude::*;

verus! {

/// The built-in provider families a default provider entry can name.
#[derive(Clone, Copy, Debug, PartialEq, Eq, Structural)]
pub enum DefaultProvider {
    VkCalls,
    YandexTelemost,
}

/// How a provider reaches the peer.
#[derive(Clone, Debug)]
pub enum ProviderDetails {
    Direct,
    Default { kind: DefaultProvider, link: String },
    Custom {
        username: String,
        password: String,
        turn_address: String,
        stun_address: String,
        realm: String,
    },
}

/// One provider entry of the client configuration.
#[derive(Clone, Debug)]
pub struct ProviderConfiguration {
    pub priority: Option<u32>,
    pub using_udp: bool,
    pub using_dtls_obfuscation: bool,
    pub details: ProviderDetails,
    pub threads: Option<usize>,
}

/// The thread count a provider gets when its entry names none.
pub open spec fn default_threads(details: ProviderDetails) -> Option<usize> {
    match details {
        ProviderDetails::Default { kind: DefaultProvider::VkCalls, .. } => Some(16),
        ProviderDetails::Direct => None,
        _ => Some(1),
    }
}

/// A provider entry with its defaults filled in.
pub open spec fn with_defaults(p: ProviderConfiguration) -> ProviderConfiguration {
    if p.threads is None {
        ProviderConfiguration { threads: default_threads(p.details), ..p }
    } else {
        p
    }
}

/// Fills in the thread count of a provider entry that names none: sixteen
/// for VK Calls, none for a direct connection, one for every other provider.
pub fn apply_provider_defaults(provider: &mut ProviderConfiguration)
    ensures
        *final(provider) == with_defaults(*old(provider)),
{
    if provider.threads.is_none() {
        provider.threads = match &provider.details {
            ProviderDetails::Default { kind: DefaultProvider::VkCalls, .. } => Some(16),
            ProviderDetails::Direct => None,
            _ => Some(1),
        };
    }
}

/// Filling in defaults twice is filling them in once.
pub proof fn defaults_are_idempotent(p: ProviderConfiguration)
    ensures
        with_defaults(with_defaults(p)) == with_defaults(p),
{
}

/// Every provider of a configuration `init_config` puts together already has
/// its defaults: filling them in again changes nothing.
pub proof fn merged_providers_keep_defaults(chosen: Seq<ProviderConfiguration>)
    ensures
        chosen.map_values(|p| with_defaults(p)).map_values(|p| with_defaults(p))
            == chosen.map_values(|p| with_defaults(p)),
{
    let once = chosen.map_values(|p| with_defaults(p));
    let twice = once.map_values(|p| with_defaults(p));
    assert forall|k: int| 0 <= k < once.len() implies #[trigger] twice[k] == once[k] by {
        defaults_are_idempotent(chosen[k]);
    }
    assert(twice =~= once);
}

/// Defaults touch only the thread count, and only where none is given:
/// sixteen for VK Calls, none for a direct connection, one otherwise.
pub proof fn defaults_fill_only_missing_threads(p: ProviderConfiguration)
    ensures
        with_defaults(p).priority == p.priority,
        with_defaults(p).using_udp == p.using_udp,
        with_defaults(p).using_dtls_obfuscation == p.using_dtls_obfuscation,
        with_defaults(p).details == p.details,
        p.threads is Some ==> with_defaults(p).threads == p.threads,
        (p.threads is None && (p.details matches ProviderDetails::Default { kind: DefaultProvider::VkCalls, .. }))
            ==> with_defaults(p).threads == Some(16usize),
        p.threads is None && p.details is Direct ==> with_defaults(p).threads is None,
        (p.threads is None && !(p.details is Direct) && !(p.details matches ProviderDetails::Default {
            kind: DefaultProvider::VkCalls,
            ..
        })) ==> with_defaults(p).threads == Some(1usize),
{
}

/// What the command line can ask for instead of the configuration file's
/// providers.
#[derive(Clone, Debug)]
pub enum ProviderType {
    FromConfigFile,
    Direct,
    Default { kind: DefaultProvider, link: String },
    Custom {
        username: String,
        password: String,
        turn_address: String,
        stun_address: String,
        realm: String,
    },
}

/// Command-line settings shared by every provider kind.
#[derive(Clone, Debug)]
pub struct ProviderCommonArgs {
    pub using_udp: bool,
    pub using_dtls_obfuscation: bool,
    pub threads: Option<u32>,
}

/// The client's command line.
#[derive(Clone, Debug)]
pub struct Args {
    pub config: String,
    pub listening_on: Option<String>,
    pub peer_addr: Option<String>,
    pub provider_type: Option<ProviderType>,
    pub provider_common: Option<ProviderCommonArgs>,
}

/// Settings of the client that do not depend on a provider.
#[derive(Clone, Debug)]
pub struct CommonConfiguration {
    pub listening_on: String,
    pub peer_addr: String,
    pub interface_addr: Option<String>,
}

/// The client's whole configuration.
#[derive(Clone, Debug)]
pub struct AppConfiguration {
    pub common: CommonConfiguration,
    pub providers: Vec<ProviderConfiguration>,
}

/// Why a configuration could not be put together.
#[derive(Clone, Debug)]
pub enum ConfigError {
    /// The command line asked for the file's providers, but the file does not exist.
    ConfigFileNotFound { path: String },
}

impl Default for ProviderCommonArgs {
    fn default() -> (res: Self)
        ensures
            res == default_common_args(),
    {
        ProviderCommonArgs { using_udp: false, using_dtls_obfuscation: false, threads: None }
    }
}

impl Default for AppConfiguration {
    fn default() -> (res: Self)
        ensures
            res.common.listening_on@ == Seq::<char>::empty(),
            res.common.peer_addr@ == Seq::<char>::empty(),
            res.common.interface_addr is None,
            res.providers@ == Seq::<ProviderConfiguration>::empty(),
    {
        AppConfiguration {
            common: CommonConfiguration {
                listening_on: String::new(),
                peer_addr: String::new(),
                interface_addr: None,
            },
            providers: Vec::new(),
        }
    }
}

/// The shared provider settings when the command line gives none.
pub open spec fn default_common_args() -> ProviderCommonArgs {
    ProviderCommonArgs { using_udp: false, using_dtls_obfuscation: false, threads: None }
}

/// The text a string setting ends up with: the command line's value where it
/// gives one, else the loaded file's, else the empty default.
pub open spec fn chosen_text(arg: Option<String>, loaded: Option<Seq<char>>) -> Seq<char> {
    match arg {
        Some(a) => a@,
        None => match loaded {
            Some(l) => l,
            None => Seq::empty(),
        },
    }
}

/// The details a provider built from the command line gets.
pub open spec fn details_from_type(pt: ProviderType) -> ProviderDetails {
    match pt {
        ProviderType::Default { kind, link } => ProviderDetails::Default { kind, link },
        ProviderType::Custom { username, password, turn_address, stun_address, realm } =>
            ProviderDetails::Custom { username, password, turn_address, stun_address, realm },
        _ => ProviderDetails::Direct,
    }
}

/// The single provider entry that the command line describes.
pub open spec fn provider_from_args(pt: ProviderType, common: ProviderCommonArgs) -> ProviderConfiguration {
    ProviderConfiguration {
        priority: Some(0),
        using_udp: common.using_udp,
        using_dtls_obfuscation: common.using_dtls_obfuscation,
        details: details_from_type(pt),
        threads: match common.threads {
            Some(t) => Some(t as usize),
            None => None,
        },
    }
}

/// The command line names a provider of its own (not the file's).
pub open spec fn names_own_provider(args: Args) -> bool {
    args.provider_type matches Some(pt) && !(pt is FromConfigFile)
}

/// The providers of the merged configuration, before defaults are applied.
pub open spec fn chosen_providers(loaded: Option<AppConfiguration>, args: Args) -> Seq<ProviderConfiguration> {
    if names_own_provider(args) {
        seq![provider_from_args(args.provider_type->0, match args.provider_common {
            Some(c) => c,
            None => default_common_args(),
        })]
    } else {
        match loaded {
            Some(f) => f.providers@,
            None => Seq::empty(),
        }
    }
}

/// The configuration file is needed but there is none.
pub open spec fn missing_required_file(loaded: Option<AppConfiguration>, args: Args) -> bool {
    loaded is None && args.provider_type matches Some(ProviderType::FromConfigFile)
}

/// A provider named on the command line becomes the only provider, with
/// priority zero, the command line's UDP and obfuscation flags (both off
/// where it gives none), its thread count, and the details it names.
pub proof fn command_line_provider_keeps_its_settings(loaded: Option<AppConfiguration>, args: Args)
    requires
        names_own_provider(args),
    ensures
        ({
            let ps = chosen_providers(loaded, args).map_values(|p| with_defaults(p));
            let p = ps[0];
            &&& ps.len() == 1
            &&& p.priority == Some(0u32)
            &&& args.provider_common matches Some(c) ==> p.using_udp == c.using_udp
                && p.using_dtls_obfuscation == c.using_dtls_obfuscation
                && (c.threads matches Some(t) ==> p.threads == Some(t as usize))
            &&& args.provider_common is None ==> !p.using_udp && !p.using_dtls_obfuscation
            &&& args.provider_type matches Some(ProviderType::Direct) ==> p.details is Direct
            &&& args.provider_type matches Some(ProviderType::Default { kind, link }) ==> p.details
                == ProviderDetails::Default { kind, link }
            &&& args.provider_type matches Some(ProviderType::Custom { username, password, turn_address, stun_address, realm })
                ==> p.details == ProviderDetails::Custom { username, password, turn_address, stun_address, realm }
        }),
{
}

/// Without a provider on the command line, the file's providers stay, in
/// their order (none where there is no file).
pub proof fn file_providers_stay_otherwise(loaded: Option<AppConfiguration>, args: Args)
    requires
        !names_own_provider(args),
    ensures
        loaded matches Some(f) ==> chosen_providers(loaded, args) == f.providers@,
        loaded is None ==> chosen_providers(loaded, args).len() == 0,
{
}

/// A text setting given on the command line wins; else the file's is kept;
/// else it is empty.
pub proof fn command_line_text_wins(arg: Option<String>, loaded: Option<Seq<char>>)
    ensures
        arg matches Some(a) ==> chosen_text(arg, loaded) == a@,
        arg is None && loaded is Some ==> chosen_text(arg, loaded) == loaded->0,
        arg is None && loaded is None ==> chosen_text(arg, loaded).len() == 0,
{
}

/// The configuration fails exactly when the command line asks for the
/// file's providers and there is no file.
pub proof fn file_required_only_for_its_providers(loaded: Option<AppConfiguration>, args: Args)
    ensures
        missing_required_file(loaded, args) <==> (loaded is None && (args.provider_type matches Some(
            ProviderType::FromConfigFile,
        ))),
{
}

/// Puts the client's configuration together. `loaded` is the configuration
/// file's content, `None` where no file exists at `args.config`. The command
/// line overrides the listening and peer addresses; a provider named on the
/// command line replaces the file's providers; then every provider gets its
/// defaults. Asking for the file's providers when there is no file fails.
pub fn init_config(loaded: Option<AppConfiguration>, args: Args) -> (res: Result<AppConfiguration, ConfigError>)
    ensures
        missing_required_file(loaded, args) ==> res == Err::<AppConfiguration, ConfigError>(
            ConfigError::ConfigFileNotFound { path: args.config },
        ),
        !missing_required_file(loaded, args) ==> (res matches Ok(c) && {
            &&& c.common.listening_on@ == chosen_text(
                args.listening_on,
                match loaded { Some(f) => Some(f.common.listening_on@), None => None },
            )
            &&& c.common.peer_addr@ == chosen_text(
                args.peer_addr,
                match loaded { Some(f) => Some(f.common.peer_addr@), None => None },
            )
            &&& c.common.interface_addr == match loaded {
                Some(f) => f.common.interface_addr,
                None => None,
            }
            &&& c.providers@ == chosen_providers(loaded, args).map_values(|p| with_defaults(p))
        }),
{
    let Args { config, listening_on, peer_addr, provider_type, provider_common } = args;
    let mut cfg = match loaded {
        Some(f) => f,
        None => {
            if let Some(ProviderType::FromConfigFile) = &provider_type {
                return Err(ConfigError::ConfigFileNotFound { path: config });
            }
            AppConfiguration::default()
        },
    };
    if let Some(listening) = listening_on {
        cfg.common.listening_on = listening;
    }
    if let Some(peer) = peer_addr {
        cfg.common.peer_addr = peer;
    }
    let ghost chosen = chosen_providers(loaded, args);
    let AppConfiguration { common, providers } = cfg;
    let providers = match provider_type {
        Some(pt) => {
            if let ProviderType::FromConfigFile = pt {
                providers
            } else {
                let common_args = match provider_common {
                    Some(c) => c,
                    None => ProviderCommonArgs::default(),
                };
                let details = match pt {
                    ProviderType::Default { kind, link } => ProviderDetails::Default { kind, link },
                    ProviderType::Custom { username, password, turn_address, stun_address, realm } =>
                        ProviderDetails::Custom { username, password, turn_address, stun_address, realm },
                    _ => ProviderDetails::Direct,
                };
                let threads = match common_args.threads {
                    Some(t) => Some(t as usize),
                    None => None,
                };
                let mut v: Vec<ProviderConfiguration> = Vec::new();
                v.push(ProviderConfiguration {
                    priority: Some(0),
                    using_udp: common_args.using_udp,
                    using_dtls_obfuscation: common_args.using_dtls_obfuscation,
                    details,
                    threads,
                });
                v
            }
        },
        None => providers,
    };
    assert(providers@ == chosen);
    let providers = providers_with_defaults(providers);
    Ok(AppConfiguration { common, providers })
}

/// Applies `apply_provider_defaults` to every entry, keeping their order.
pub fn providers_with_defaults(providers: Vec<ProviderConfiguration>) -> (res: Vec<ProviderConfiguration>)
    ensures
        res@ == providers@.map_values(|p| with_defaults(p)),
{
    let mut rest = providers;
    let mut out: Vec<ProviderConfiguration> = Vec::new();
    let ghost orig = providers@;
    while rest.len() > 0
        invariant
            out@.len() + rest@.len() == orig.len(),
            rest@ == orig.skip(out@.len() as int),
            out@ == orig.take(out@.len() as int).map_values(|p| with_defaults(p)),
        decreases rest@.len(),
    {
        let mut p = rest.remove(0);
        apply_provider_defaults(&mut p);
        let ghost k = out@.len() as int;
        out.push(p);
        assert(orig.take(k + 1) =~= orig.take(k).push(orig[k]));
        assert(rest@ =~= orig.skip(k + 1));
        assert(out@ =~= orig.take(k + 1).map_values(|p| with_defaults(p)));
    }
    assert(orig.take(orig.len() as int) =~= orig);
    out
}

} // verus!
