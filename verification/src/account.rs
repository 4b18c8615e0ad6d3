//! An account: its backend and the settings the commands render with.
use vstd::prelude::*;
use crate::attachments::opt_view;
use crate::backend::{client_backend, select_client_backend, Backend, BackendArg, BackendError};
use crate::config::{configured_backends, AccountConfig, Config};
use crate::table::{default_table_preset, TableArrangement};
use crate::text::owned;

verus! {

/// A path that `shellexpand` leaves as it is: no `$` and no leading `~`.
pub open spec fn plain_path(p: Seq<char>) -> bool {
    !p.contains('$') && !(p.len() > 0 && p[0] == '~')
}

/// Expands `~` and environment variables in a path.
///
/// Trusted: calls `shellexpand::full`, `None` when it fails. The result
/// depends on the environment; what is stated is what its source shows:
/// a path without `$` and without a leading `~` comes back unchanged.
#[verifier::external_body]
fn expand_path(path: &str) -> (r: Option<String>)
    ensures
        plain_path(path@) ==> opt_view(r) == Some(path@),
{
    shellexpand::full(path).ok().map(|s| s.to_string())
}

/// The platform's downloads directory.
///
/// Trusted: calls `dirs::download_dir` and converts the path to a
/// string; a path that is not valid UTF-8 gives `None` (paths are held as
/// strings here). The result depends on the platform and the
/// environment, so nothing is stated of it.
#[verifier::external_body]
fn platform_download_dir() -> Option<String> {
    dirs::download_dir()?.into_os_string().into_string().ok()
}

/// The downloads directory: the first of the account's (expanded), the
/// global one (expanded), the platform's, and the temporary directory.
pub open spec fn resolved_downloads_dir(
    account: Option<Seq<char>>,
    global: Option<Seq<char>>,
    platform: Option<Seq<char>>,
    temp: Seq<char>,
) -> Seq<char> {
    match account {
        Some(a) => a,
        None => match global {
            Some(g) => g,
            None => match platform {
                Some(p) => p,
                None => temp,
            },
        },
    }
}

/// `expanded` may be what expanding the configured `dir` gave: nothing
/// without a configured directory, the directory itself when it is a
/// plain path.
pub open spec fn expansion_of(dir: Option<Seq<char>>, expanded: Option<Seq<char>>) -> bool {
    match dir {
        None => expanded is None,
        Some(d) => plain_path(d) ==> expanded == Some(d),
    }
}

/// `first.or(second)`.
pub open spec fn or_else<T>(first: Option<T>, second: Option<T>) -> Option<T> {
    match first {
        Some(x) => Some(x),
        None => second,
    }
}

/// The date format used when none is configured.
pub open spec fn default_datetime_fmt() -> Seq<char> {
    "%F %R%:z"@
}

/// `a`'s settings are those built from the global and account
/// configurations, given what expanding the account's and the global
/// downloads directories gave (`ad`, `g`) and the platform's downloads
/// directory (`p`): the downloads directory is the first of `ad`, `g`,
/// `p` and `temp`; the table and date settings come from the global
/// configuration, then the account's, then the defaults.
pub open spec fn built_from_dirs<B>(
    config: &Config,
    account_config: &AccountConfig,
    ad: Option<Seq<char>>,
    g: Option<Seq<char>>,
    p: Option<Seq<char>>,
    temp: Seq<char>,
    a: Account<B>,
) -> bool {
    &&& a.downloads_dir@ == resolved_downloads_dir(ad, g, p, temp)
    &&& a.table_preset@ == match or_else(
        opt_view(config.table_preset),
        opt_view(account_config.table_preset),
    ) {
        Some(s) => s,
        None => condensed_preset(),
    }
    &&& a.table_arrangement == match or_else(
        config.table_arrangement,
        account_config.table_arrangement,
    ) {
        Some(x) => x,
        None => TableArrangement::Dynamic,
    }
    &&& a.datetime_fmt@ == match or_else(
        opt_view(config.datetime_fmt),
        opt_view(account_config.datetime_fmt),
    ) {
        Some(f) => f,
        None => default_datetime_fmt(),
    }
    &&& a.datetime_local_tz == match or_else(
        config.datetime_local_tz,
        account_config.datetime_local_tz,
    ) {
        Some(b) => b,
        None => false,
    }
}

/// `a`'s settings are those built from the global and account
/// configurations, for some expansions of the configured downloads
/// directories (a plain path expands to itself) and some platform
/// directory.
pub open spec fn built_from<B>(config: &Config, account_config: &AccountConfig, temp: Seq<char>, a: Account<B>) -> bool {
    exists|ad: Option<Seq<char>>, g: Option<Seq<char>>, p: Option<Seq<char>>|
        expansion_of(opt_view(account_config.downloads_dir), ad) && expansion_of(
            opt_view(config.downloads_dir),
            g,
        ) && #[trigger] built_from_dirs(config, account_config, ad, g, p, temp, a)
}

/// Two accounts have the same settings (whatever their backends).
pub open spec fn same_settings<A, B>(a: Account<A>, b: Account<B>) -> bool {
    &&& a.downloads_dir@ == b.downloads_dir@
    &&& a.table_preset@ == b.table_preset@
    &&& a.table_arrangement == b.table_arrangement
    &&& a.datetime_fmt@ == b.datetime_fmt@
    &&& a.datetime_local_tz == b.datetime_local_tz
}

/// The downloads directory: the first of the account's (expanded), the
/// global one (expanded), the platform's, and the temporary directory.
pub fn resolve_downloads_dir(
    account: Option<String>,
    global: Option<String>,
    platform: Option<String>,
    temp: String,
) -> (r: String)
    ensures
        r@ == resolved_downloads_dir(opt_view(account), opt_view(global), opt_view(platform), temp@),
{
    match account {
        Some(a) => a,
        None => match global {
            Some(g) => g,
            None => match platform {
                Some(p) => p,
                None => temp,
            },
        },
    }
}

/// The account behind the shared client: the backend chosen for `arg`
/// (the first configured one, in IMAP, JMAP, Maildir order, that `arg`
/// allows) with the settings of `account`, or why no backend can serve.
pub fn client_account(account: Account<()>, account_config: &AccountConfig, arg: BackendArg) -> (r: Result<Account<Backend>, BackendError>)
    ensures
        match r {
            Ok(a) => client_backend(arg, configured_backends(*account_config)) == Ok::<Backend, BackendError>(a.backend)
                && same_settings(a, account),
            Err(e) => client_backend(arg, configured_backends(*account_config)) == Err::<Backend, BackendError>(e),
        },
{
    let backend = select_client_backend(arg, account_config.backends())?;
    Ok(Account {
        backend,
        downloads_dir: account.downloads_dir,
        table_preset: account.table_preset,
        table_arrangement: account.table_arrangement,
        datetime_fmt: account.datetime_fmt,
        datetime_local_tz: account.datetime_local_tz,
    })
}

/// An account: its backend configuration and rendering settings.
#[derive(Debug)]
pub struct Account<B> {
    pub backend: B,
    /// Directory attachments are downloaded to.
    pub downloads_dir: String,
    /// Border preset of the tables.
    pub table_preset: String,
    /// How tables adapt to the terminal.
    pub table_arrangement: TableArrangement,
    /// Format of the dates of the envelope listing.
    pub datetime_fmt: String,
    /// Whether dates are shown in local time.
    pub datetime_local_tz: bool,
}

/// The text of `comfy_table`'s condensed UTF-8 preset.
pub open spec fn condensed_preset() -> Seq<char> {
    seq!['│', '│', '─', '─', '╞', '═', '╪', '╡', '┆', ' ', ' ', ' ', ' ', '┬', '┴', '┌', '┐', '└', '┘']
}

impl<B> Account<B> {
    /// Builds the account from the global and account configurations and
    /// from the downloads directories found for them: `account_dir` and
    /// `global_dir`, what expanding the configured ones gave, and
    /// `platform_dir`, the platform's.
    ///
    /// The downloads directory is the first of `account_dir`,
    /// `global_dir`, `platform_dir` and `temp_dir`. For the table and date
    /// settings the global configuration comes first, then the account's,
    /// then the defaults: the condensed UTF-8 preset, the dynamic
    /// arrangement, `"%F %R%:z"`, and UTC dates.
    pub fn from_dirs(
        config: &Config,
        account_config: &AccountConfig,
        backend: B,
        account_dir: Option<String>,
        global_dir: Option<String>,
        platform_dir: Option<String>,
        temp_dir: String,
    ) -> (r: Self)
        ensures
            r.backend == backend,
            built_from_dirs(
                config,
                account_config,
                opt_view(account_dir),
                opt_view(global_dir),
                opt_view(platform_dir),
                temp_dir@,
                r,
            ),
    {
        let downloads_dir = resolve_downloads_dir(account_dir, global_dir, platform_dir, temp_dir);
        let table_preset = match &config.table_preset {
            Some(p) => p.clone(),
            None => match &account_config.table_preset {
                Some(p) => p.clone(),
                None => default_table_preset(),
            },
        };
        let table_arrangement = match config.table_arrangement {
            Some(a) => a,
            None => match account_config.table_arrangement {
                Some(a) => a,
                None => TableArrangement::default_arrangement(),
            },
        };
        let datetime_fmt = match &config.datetime_fmt {
            Some(f) => f.clone(),
            None => match &account_config.datetime_fmt {
                Some(f) => f.clone(),
                None => {
                    proof {
                        reveal_strlit("%F %R%:z");
                    }
                    owned("%F %R%:z")
                },
            },
        };
        let datetime_local_tz = match config.datetime_local_tz {
            Some(b) => b,
            None => match account_config.datetime_local_tz {
                Some(b) => b,
                None => false,
            },
        };
        Account {
            backend,
            downloads_dir,
            table_preset,
            table_arrangement,
            datetime_fmt,
            datetime_local_tz,
        }
    }

    /// Builds the account from the global and account configurations,
    /// expanding `~` and environment variables in the configured downloads
    /// directories and asking the platform for its downloads directory
    /// when neither is configured; see [`Account::from_dirs`].
    pub fn new(config: &Config, account_config: &AccountConfig, backend: B, temp_dir: String) -> (r:
        Self)
        ensures
            r.backend == backend,
            built_from(config, account_config, temp_dir@, r),
    {
        let account_dir = match &account_config.downloads_dir {
            Some(d) => expand_path(d.as_str()),
            None => None,
        };
        let global_dir = match &config.downloads_dir {
            Some(d) => expand_path(d.as_str()),
            None => None,
        };
        let platform_dir = if account_dir.is_none() && global_dir.is_none() {
            platform_download_dir()
        } else {
            None
        };
        let ghost ad = opt_view(account_dir);
        let ghost g = opt_view(global_dir);
        let ghost p = opt_view(platform_dir);
        let r = Account::from_dirs(
            config,
            account_config,
            backend,
            account_dir,
            global_dir,
            platform_dir,
            temp_dir,
        );
        assert(built_from_dirs(config, account_config, ad, g, p, temp_dir@, r));
        r
    }
}

} // verus!
