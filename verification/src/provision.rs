//! Isolated per-run database provisioning: a freshly generated
//! identifier names a throwaway database, a working copy of the base
//! settings is bound to it, and a small state machine walks the caller
//! through creating the database and applying every migration, in
//! order, all or nothing.

use vstd::prelude::*;

use crate::configuration::{
    is_identifier_char, is_valid_database_name, spec_connection_string,
    spec_connection_string_without_db, DatabaseSettings,
};
use crate::startup::{DbHandle, DbMode};
use crate::text::is_ascii_seq;

verus! {

/// Generates a fresh random identifier.
///
/// Relies on `uuid::Uuid::new_v4` and the hyphenated form its
/// `Display` renders: 36 characters, lowercase hexadecimal digits with
/// hyphens at positions 8, 13, 18 and 23. The value is random;
/// freshness is statistical, and nothing relates two calls.
#[verifier::external_body]
fn random_identifier() -> (r: String)
    ensures
        r@.len() == 36,
        forall|i: int|
            0 <= i < 36 && !(i == 8 || i == 13 || i == 18 || i == 23) ==> (('0' <= #[trigger] r@[i]
                && r@[i] <= '9') || ('a' <= r@[i] && r@[i] <= 'f')),
        forall|i: int|
            (i == 8 || i == 13 || i == 18 || i == 23) ==> #[trigger] r@[i] == '-',
{
    uuid::Uuid::new_v4().to_string()
}

/// Allocates the identifier of a new isolated environment: fresh at
/// random, and always a valid database identifier.
pub fn new_environment_id() -> (id: String)
    ensures
        id@.len() == 36,
        is_valid_database_name(id@),
{
    let id = random_identifier();
    proof {
        assert forall|i: int| 0 <= i < id@.len() implies is_identifier_char(#[trigger] id@[i]) by {
            if i == 8 || i == 13 || i == 18 || i == 23 {
                assert(id@[i] == '-');
            }
        }
    }
    id
}

/// A working copy of `base` bound to the database named `id`: every
/// connection parameter is kept, only the database name is replaced.
/// `base` is only read, never changed.
pub fn isolated_settings(base: &DatabaseSettings, id: &str) -> (s: DatabaseSettings)
    ensures
        s.username@ == base.username@,
        s.password@ == base.password@,
        s.host@ == base.host@,
        s.port == base.port,
        s.database_name@ == id@,
{
    DatabaseSettings {
        username: base.username.clone(),
        password: base.password.clone(),
        host: base.host.clone(),
        port: base.port,
        database_name: String::from_str(id),
    }
}

/// The command that creates the database named `name`, the name quoted.
pub open spec fn spec_create_database_command(name: Seq<char>) -> Seq<char> {
    "CREATE DATABASE \""@ + name + "\";"@
}

/// Renders the command that creates the database named `name`.
pub fn create_database_command(name: &str) -> (c: String)
    ensures
        c@ == spec_create_database_command(name@),
{
    let mut s = String::from_str("CREATE DATABASE \"");
    s.append(name);
    s.append("\";");
    proof {
        assert(s@ =~= spec_create_database_command(name@));
    }
    s
}

/// One schema-change script: its position in the fixed order, and its
/// text.
pub struct Migration {
    pub index: usize,
    pub sql: String,
}

/// The text of the one script this service's schema needs: the
/// subscriptions table.
pub open spec fn spec_subscriptions_table_sql() -> Seq<char> {
    "CREATE TABLE subscriptions(id uuid NOT NULL, PRIMARY KEY (id), email TEXT NOT NULL UNIQUE, name TEXT NOT NULL, subscribed_at timestamptz NOT NULL);"@
}

/// The ordered migration plan: every script the schema needs, each
/// indexed by its position.
pub fn migration_plan() -> (plan: Vec<Migration>)
    ensures
        plan@.len() == 1,
        plan@[0].index == 0,
        plan@[0].sql@ == spec_subscriptions_table_sql(),
{
    let mut plan: Vec<Migration> = Vec::new();
    plan.push(
        Migration {
            index: 0,
            sql: String::from_str(
                "CREATE TABLE subscriptions(id uuid NOT NULL, PRIMARY KEY (id), email TEXT NOT NULL UNIQUE, name TEXT NOT NULL, subscribed_at timestamptz NOT NULL);",
            ),
        },
    );
    plan
}

/// The schema a completed run leaves: the scripts of the plan, in
/// their defined order. Every completed run of the same plan leaves
/// this same schema.
pub open spec fn spec_schema_after(plan: Seq<Migration>) -> Seq<Seq<char>> {
    Seq::new(plan.len(), |i: int| plan[i].sql@)
}

/// Where a provisioning run stands: each state names what must happen
/// next, `Ready` is the goal, and `Failed` is where any failure lands.
#[derive(Clone, Copy, Debug, PartialEq, Eq, Structural)]
pub enum ProvisionState {
    ConnectServer,
    CreateDatabase,
    OpenPool,
    ApplyMigration { next: usize },
    Ready,
    Failed,
}

/// What the caller must do next: each action carries the text to use.
/// `Done` ends the run with the environment usable; `Abort` ends it
/// with the environment unusable.
pub enum ProvisionAction {
    Connect(String),
    CreateDatabase(String),
    OpenPool(String),
    ApplyMigration(String),
    Done,
    Abort,
}

/// The one next state a report allows: any failure lands in `Failed`
/// and stays there; success walks connect, create, open, then the
/// migrations in order, and rests at `Ready`.
pub open spec fn spec_transition(state: ProvisionState, ok: bool, n_migrations: int) -> ProvisionState {
    if !ok {
        ProvisionState::Failed
    } else {
        match state {
            ProvisionState::ConnectServer => ProvisionState::CreateDatabase,
            ProvisionState::CreateDatabase => ProvisionState::OpenPool,
            ProvisionState::OpenPool => {
                if n_migrations == 0 {
                    ProvisionState::Ready
                } else {
                    ProvisionState::ApplyMigration { next: 0 }
                }
            },
            ProvisionState::ApplyMigration { next } => {
                if next + 1 == n_migrations {
                    ProvisionState::Ready
                } else {
                    ProvisionState::ApplyMigration { next: (next + 1) as usize }
                }
            },
            ProvisionState::Ready => ProvisionState::Ready,
            ProvisionState::Failed => ProvisionState::Failed,
        }
    }
}

/// The state after a whole run of reports.
pub open spec fn spec_run(state: ProvisionState, events: Seq<bool>, n_migrations: int) -> ProvisionState
    decreases events.len(),
{
    if events.len() == 0 {
        state
    } else {
        spec_run(spec_transition(state, events[0], n_migrations), events.skip(1), n_migrations)
    }
}

/// Failure is absorbing: once a run has failed, no report revives it.
pub proof fn lemma_failed_is_absorbing(events: Seq<bool>, n_migrations: int)
    ensures
        spec_run(ProvisionState::Failed, events, n_migrations) is Failed,
    decreases events.len(),
{
    if events.len() != 0 {
        lemma_failed_is_absorbing(events.skip(1), n_migrations);
    }
}

/// All or nothing: a run that ends `Ready` saw every single step
/// succeed — an environment is never usable over a half-made database.
pub proof fn lemma_all_or_nothing(state: ProvisionState, events: Seq<bool>, n_migrations: int)
    requires
        !(state is Failed),
        spec_run(state, events, n_migrations) is Ready,
    ensures
        forall|i: int| 0 <= i < events.len() ==> events[i],
    decreases events.len(),
{
    if events.len() != 0 {
        if !events[0] {
            lemma_failed_is_absorbing(events.skip(1), n_migrations);
        } else {
            let next = spec_transition(state, true, n_migrations);
            if next is Failed {
                lemma_failed_is_absorbing(events.skip(1), n_migrations);
            }
            lemma_all_or_nothing(next, events.skip(1), n_migrations);
            assert forall|i: int| 0 <= i < events.len() implies events[i] by {
                if i > 0 {
                    assert(events.skip(1)[i - 1]);
                }
            }
        }
    }
}

/// A provisioning run: the settings of the new environment, the texts
/// its actions need, the migration plan, and where the run stands.
pub struct Provisioner {
    pub settings: DatabaseSettings,
    pub server_url: String,
    pub database_url: String,
    pub create_command: String,
    pub plan: Vec<Migration>,
    pub state: ProvisionState,
}

impl Provisioner {
    /// The run's texts belong to its settings and plan, and a
    /// migration position in progress stays within the plan.
    pub open spec fn wf(self) -> bool {
        &&& self.server_url@ == spec_connection_string_without_db(self.settings)
        &&& self.database_url@ == spec_connection_string(self.settings)
        &&& self.create_command@ == spec_create_database_command(self.settings.database_name@)
        &&& (self.state matches ProvisionState::ApplyMigration { next } ==> next < self.plan@.len())
    }

    /// Starts a run for a new environment: a fresh identifier, a
    /// working copy of `base` bound to it (`base` itself only read),
    /// and the full plan, with everything still to do.
    pub fn new_environment(base: &DatabaseSettings) -> (p: Provisioner)
        requires
            is_ascii_seq(base.username@),
            is_ascii_seq(base.password@),
        ensures
            p.wf(),
            p.state is ConnectServer,
            p.settings.username@ == base.username@,
            p.settings.password@ == base.password@,
            p.settings.host@ == base.host@,
            p.settings.port == base.port,
            is_valid_database_name(p.settings.database_name@),
            p.plan@.len() == 1,
            p.plan@[0].sql@ == spec_subscriptions_table_sql(),
    {
        let id = new_environment_id();
        let settings = isolated_settings(base, id.as_str());
        let server_url = settings.connection_string_without_db();
        let database_url = settings.connection_string();
        let create_command = create_database_command(settings.database_name.as_str());
        let plan = migration_plan();
        Provisioner {
            settings,
            server_url,
            database_url,
            create_command,
            plan,
            state: ProvisionState::ConnectServer,
        }
    }

    /// Takes the report of the last action and hands out the next one:
    /// the state moves exactly as `spec_transition` says, and the
    /// action carries the text the new state calls for. On any failure
    /// the run aborts; after `Ready` it keeps answering `Done`.
    pub fn step(&mut self, ok: bool) -> (a: ProvisionAction)
        requires
            old(self).wf(),
        ensures
            final(self).wf(),
            final(self).settings == old(self).settings,
            final(self).plan == old(self).plan,
            final(self).state == spec_transition(old(self).state, ok, old(self).plan@.len() as int),
            final(self).state is Failed ==> a is Abort,
            final(self).state is Ready ==> a is Done,
            final(self).state is CreateDatabase ==> (a matches ProvisionAction::CreateDatabase(c)
                && c@ == spec_create_database_command(old(self).settings.database_name@)),
            final(self).state is OpenPool ==> (a matches ProvisionAction::OpenPool(u) && u@
                == spec_connection_string(old(self).settings)),
            final(self).state matches ProvisionState::ApplyMigration { next } ==> (a
                matches ProvisionAction::ApplyMigration(sql) && sql@ == old(self).plan@[next as int].sql@),
    {
        if !ok {
            self.state = ProvisionState::Failed;
            return ProvisionAction::Abort;
        }
        match self.state {
            ProvisionState::ConnectServer => {
                self.state = ProvisionState::CreateDatabase;
                ProvisionAction::CreateDatabase(self.create_command.clone())
            },
            ProvisionState::CreateDatabase => {
                self.state = ProvisionState::OpenPool;
                ProvisionAction::OpenPool(self.database_url.clone())
            },
            ProvisionState::OpenPool => {
                if self.plan.len() == 0 {
                    self.state = ProvisionState::Ready;
                    ProvisionAction::Done
                } else {
                    self.state = ProvisionState::ApplyMigration { next: 0 };
                    ProvisionAction::ApplyMigration(self.plan[0].sql.clone())
                }
            },
            ProvisionState::ApplyMigration { next } => {
                let n = self.plan.len();
                if next + 1 == n {
                    self.state = ProvisionState::Ready;
                    ProvisionAction::Done
                } else {
                    self.state = ProvisionState::ApplyMigration { next: next + 1 };
                    ProvisionAction::ApplyMigration(self.plan[next + 1].sql.clone())
                }
            },
            ProvisionState::Ready => ProvisionAction::Done,
            ProvisionState::Failed => ProvisionAction::Abort,
        }
    }

    /// The first action of a run: open a connection to the server
    /// itself, without naming the new database — it does not exist yet.
    pub fn begin(&self) -> (a: ProvisionAction)
        requires
            self.wf(),
            self.state is ConnectServer,
        ensures
            a matches ProvisionAction::Connect(u) && u@ == spec_connection_string_without_db(
                self.settings,
            ),
    {
        ProvisionAction::Connect(self.server_url.clone())
    }
}

/// A provisioned environment: its unique identifier, and the handle of
/// the pool bound to the database named after it. Created for one run,
/// never reused across runs.
pub struct IsolatedEnvironment {
    pub id: String,
    pub handle: DbHandle,
}

impl Provisioner {
    /// Hands the finished environment out: only a run that ended
    /// `Ready` has one, and its pooled handle carries the database the
    /// run created and migrated.
    pub fn environment(&self) -> (e: IsolatedEnvironment)
        requires
            self.state is Ready,
        ensures
            e.id@ == self.settings.database_name@,
            e.handle.mode is Pooled,
            e.handle.database_name@ == self.settings.database_name@,
    {
        IsolatedEnvironment {
            id: self.settings.database_name.clone(),
            handle: DbHandle {
                mode: DbMode::Pooled,
                database_name: self.settings.database_name.clone(),
            },
        }
    }
}

/// A row of the subscriptions table, as the isolation model sees it.
pub ghost struct RowModel {
    pub name: Seq<char>,
    pub email: Seq<char>,
}

/// The datastore model: each database, named by its identifier, holds
/// its own rows.
pub open spec fn spec_insert_row(
    store: Map<Seq<char>, Seq<RowModel>>,
    database: Seq<char>,
    row: RowModel,
) -> Map<Seq<char>, Seq<RowModel>> {
    if store.contains_key(database) {
        store.insert(database, store[database].push(row))
    } else {
        store.insert(database, seq![row])
    }
}

/// Isolation: environments with distinct identifiers name distinct
/// databases, and a row written under one identifier leaves every
/// other database exactly as it was — nothing inserted in one
/// environment is ever visible from the other.
pub proof fn lemma_environment_isolation(
    store: Map<Seq<char>, Seq<RowModel>>,
    s1: DatabaseSettings,
    s2: DatabaseSettings,
    row: RowModel,
)
    requires
        s1.database_name@ != s2.database_name@,
    ensures
        spec_insert_row(store, s1.database_name@, row).contains_key(s2.database_name@)
            == store.contains_key(s2.database_name@),
        store.contains_key(s2.database_name@) ==> spec_insert_row(
            store,
            s1.database_name@,
            row,
        )[s2.database_name@] == store[s2.database_name@],
{
}

/// Environments that differ only in their database name connect to
/// different places: their connection strings can never coincide.
pub proof fn lemma_distinct_names_distinct_urls(s1: DatabaseSettings, s2: DatabaseSettings)
    requires
        s1.username@ == s2.username@,
        s1.password@ == s2.password@,
        s1.host@ == s2.host@,
        s1.port == s2.port,
        s1.database_name@ != s2.database_name@,
    ensures
        spec_connection_string(s1) != spec_connection_string(s2),
{
    let p = spec_connection_string_without_db(s1) + "/"@;
    assert(spec_connection_string_without_db(s2) == spec_connection_string_without_db(s1));
    assert(spec_connection_string(s1).skip(p.len() as int) =~= s1.database_name@);
    assert(spec_connection_string(s2).skip(p.len() as int) =~= s2.database_name@);
}

/// Determinism of migration: the schema a completed run leaves is a
/// function of the plan alone, so two databases each provisioned fresh
/// and migrated with the same plan are schema-equivalent.
pub proof fn lemma_migrated_schemas_equal(plan1: Seq<Migration>, plan2: Seq<Migration>)
    requires
        plan1.len() == plan2.len(),
        forall|i: int| 0 <= i < plan1.len() ==> plan1[i].sql@ == plan2[i].sql@,
    ensures
        spec_schema_after(plan1) == spec_schema_after(plan2),
{
    assert(spec_schema_after(plan1) =~= spec_schema_after(plan2));
}

} // verus!
