//! The centralized authorization port and permission catalog.
//!
//! Every read and mutation answers one question in one place: may this
//! principal perform this action on this resource? Handlers and adapters
//! construct an [`AccessRequest`] and obey the [`Decision`]; they never decide
//! permission themselves.
//!
//! The catalog is the complete action vocabulary: an action outside it cannot
//! be named, so it cannot be permitted by accident.

use vstd::prelude::*;

verus! {

/// One action in the permission catalog. The id is stable and appears in
/// audit events and decisions.
#[derive(Clone, Copy, Debug, PartialEq, Eq, Structural, Hash)]
pub enum Permission {
    /// Read system-level facts: build metadata, configuration summary, trust mode, storage health.
    SystemRead,
    /// List and read operations and their progress.
    OperationRead,
    /// Create a durable operation. A mutation.
    OperationCreate,
    /// Request cancellation of a running operation. A mutation.
    OperationCancel,
    /// List secret record metadata (names and key versions, never values).
    SecretList,
    /// Resolve a secret value. The most sensitive read in the system.
    SecretRead,
    /// Create or replace a secret value. A mutation.
    SecretWrite,
    /// Delete a secret record. A mutation.
    SecretDelete,
    /// Query the audit ledger.
    AuditRead,
    /// List and read machines, endpoints, capabilities, and observations.
    MachineRead,
    /// Read the unredacted credential-bearing detail of machine endpoints.
    MachineReadSensitive,
    /// Register a machine. A mutation.
    MachineCreate,
    /// Change a machine's mutable facts. A mutation.
    MachineUpdate,
    /// Remove a machine and its facts. A mutation.
    MachineDelete,
    /// Create a single-use enrollment token for a machine. A mutation.
    NodeEnroll,
    /// View a machine's node identity, credentials, sessions, and tokens.
    NodeRead,
    /// Revoke a machine's node identity and everything under it. A mutation.
    NodeRevoke,
    /// List tailnet devices and correlate them with machines.
    TailnetRead,
    /// Configure or clear the Tailscale OAuth integration. A mutation.
    TailnetConfig,
    /// List and read projects and their observed checkouts.
    ProjectsRead,
    /// Register a project. A mutation.
    ProjectsCreate,
    /// Change a project's mutable display facts. A mutation.
    ProjectsUpdate,
    /// Remove a project and its facts. A mutation.
    ProjectsDelete,
    /// Discover checkouts on a machine.
    ProjectsDiscover,
    /// Clone, pull, or read the status of a checkout. A mutation.
    ProjectsGitWrite,
    /// Write guarded agent configuration files. A mutation.
    ProjectsFileWrite,
    /// Probe and read the Skills Manager CLI's state on a machine.
    SkillsRead,
    /// Deploy or undeploy skills. A mutation.
    SkillsDeploy,
    /// Probe and read the Frogenv CLI's status on a machine.
    FrogenvRead,
    /// Run Frogenv ceremonies and environment-bound commands. A mutation.
    FrogenvOperate,
    /// Probe and read the tool inventory on a machine.
    ToolsRead,
    /// Install tools or run project tasks through mise. A mutation.
    MiseOperate,
    /// Plan and execute the ready-project workflow on a machine. A mutation.
    ProjectsReady,
    /// Create, change, or publish skill catalog entries and presets. A mutation.
    SkillsModify,
    /// Subscribe to payload-free change notifications.
    EventsRead,
    /// Fetch a desired-source candidate and record it when valid.
    SourceFetch,
    /// Activate a validated desired-source revision. A mutation.
    SourceActivate,
    /// Read Proxmox accounts, their trust state, and their guests.
    ProxmoxRead,
    /// Create, trust, or remove Proxmox accounts. A mutation.
    ProxmoxConfig,
    /// List and read image recipes and their published versions.
    ImagesRead,
    /// Create, edit, publish, or promote image recipes. A mutation.
    ImagesConfig,
    /// List and read lab templates, leases, and provisioning records.
    LabRead,
    /// Create, edit, publish, or remove lab templates. A mutation.
    LabConfig,
    /// Lease, release, or sweep lab guests. A mutation.
    LabLease,
    /// Extend a ready lease's expiry. A mutation.
    LabExtend,
    /// Keep a leased guest out of automatic cleanup. An elevated mutation.
    LabKeep,
    /// Start provisioning a lab guest. A mutation.
    LabProvision,
}

impl Permission {
    /// The stable action id of a permission.
    pub open spec fn spec_id(self) -> Seq<char> {
        match self {
            Permission::SystemRead => "system.read"@,
            Permission::OperationRead => "operation.read"@,
            Permission::OperationCreate => "operation.create"@,
            Permission::OperationCancel => "operation.cancel"@,
            Permission::SecretList => "secret.list"@,
            Permission::SecretRead => "secret.read"@,
            Permission::SecretWrite => "secret.write"@,
            Permission::SecretDelete => "secret.delete"@,
            Permission::AuditRead => "audit.read"@,
            Permission::MachineRead => "machine.read"@,
            Permission::MachineReadSensitive => "machine.read.sensitive"@,
            Permission::MachineCreate => "machine.create"@,
            Permission::MachineUpdate => "machine.update"@,
            Permission::MachineDelete => "machine.delete"@,
            Permission::NodeEnroll => "node.enroll"@,
            Permission::NodeRead => "node.read"@,
            Permission::NodeRevoke => "node.revoke"@,
            Permission::TailnetRead => "tailscale.read"@,
            Permission::TailnetConfig => "tailscale.config"@,
            Permission::ProjectsRead => "projects.read"@,
            Permission::ProjectsCreate => "projects.create"@,
            Permission::ProjectsUpdate => "projects.update"@,
            Permission::ProjectsDelete => "projects.delete"@,
            Permission::ProjectsDiscover => "projects.discover"@,
            Permission::ProjectsGitWrite => "projects.git.write"@,
            Permission::ProjectsFileWrite => "projects.file.write"@,
            Permission::SkillsRead => "skills.read"@,
            Permission::SkillsDeploy => "skills.deploy"@,
            Permission::FrogenvRead => "frogenv.read"@,
            Permission::FrogenvOperate => "frogenv.operate"@,
            Permission::ToolsRead => "tools.read"@,
            Permission::MiseOperate => "mise.operate"@,
            Permission::ProjectsReady => "projects.ready"@,
            Permission::SkillsModify => "skills.modify"@,
            Permission::EventsRead => "events.read"@,
            Permission::SourceFetch => "source.fetch"@,
            Permission::SourceActivate => "source.activate"@,
            Permission::ProxmoxRead => "proxmox.read"@,
            Permission::ProxmoxConfig => "proxmox.config"@,
            Permission::ImagesRead => "images.read"@,
            Permission::ImagesConfig => "images.config"@,
            Permission::LabRead => "lab.read"@,
            Permission::LabConfig => "lab.config"@,
            Permission::LabLease => "lab.lease"@,
            Permission::LabExtend => "lab.extend"@,
            Permission::LabKeep => "lab.keep"@,
            Permission::LabProvision => "lab.provision"@,
        }
    }

    /// Whether performing the action changes state or reveals sensitive
    /// material.
    pub open spec fn spec_is_risky(self) -> bool {
        match self {
            Permission::SystemRead
            | Permission::OperationRead
            | Permission::SecretList
            | Permission::AuditRead
            | Permission::MachineRead
            | Permission::NodeRead
            | Permission::ProjectsRead
            | Permission::EventsRead
            | Permission::ImagesRead
            | Permission::LabRead => false,
            Permission::OperationCreate
            | Permission::OperationCancel
            | Permission::SecretRead
            | Permission::SecretWrite
            | Permission::SecretDelete
            | Permission::MachineReadSensitive
            | Permission::MachineCreate
            | Permission::MachineUpdate
            | Permission::MachineDelete
            | Permission::NodeEnroll
            | Permission::NodeRevoke
            | Permission::TailnetRead
            | Permission::TailnetConfig
            | Permission::ProjectsCreate
            | Permission::ProjectsUpdate
            | Permission::ProjectsDelete
            | Permission::ProjectsDiscover
            | Permission::ProjectsGitWrite
            | Permission::ProjectsFileWrite
            | Permission::SkillsRead
            | Permission::SkillsDeploy
            | Permission::FrogenvRead
            | Permission::FrogenvOperate
            | Permission::ToolsRead
            | Permission::MiseOperate
            | Permission::ProjectsReady
            | Permission::SkillsModify
            | Permission::SourceFetch
            | Permission::SourceActivate
            | Permission::ProxmoxRead
            | Permission::ProxmoxConfig
            | Permission::ImagesConfig
            | Permission::LabConfig
            | Permission::LabLease
            | Permission::LabExtend
            | Permission::LabKeep
            | Permission::LabProvision => true,
        }
    }

    /// Whether the action names a specific resource and therefore requires
    /// one in the request.
    pub open spec fn spec_requires_resource(self) -> bool {
        match self {
            Permission::SystemRead
            | Permission::OperationRead
            | Permission::OperationCreate
            | Permission::SecretList
            | Permission::SecretWrite
            | Permission::AuditRead
            | Permission::MachineRead
            | Permission::MachineCreate
            | Permission::TailnetRead
            | Permission::TailnetConfig
            | Permission::ProjectsRead
            | Permission::ProjectsCreate
            | Permission::SkillsModify
            | Permission::EventsRead
            | Permission::SourceFetch
            | Permission::SourceActivate
            | Permission::ProxmoxRead
            | Permission::ProxmoxConfig
            | Permission::ImagesRead
            | Permission::ImagesConfig
            | Permission::LabRead
            | Permission::LabConfig
            | Permission::LabLease => false,
            Permission::OperationCancel
            | Permission::SecretRead
            | Permission::SecretDelete
            | Permission::MachineReadSensitive
            | Permission::MachineUpdate
            | Permission::MachineDelete
            | Permission::NodeEnroll
            | Permission::NodeRead
            | Permission::NodeRevoke
            | Permission::ProjectsUpdate
            | Permission::ProjectsDelete
            | Permission::ProjectsDiscover
            | Permission::ProjectsGitWrite
            | Permission::ProjectsFileWrite
            | Permission::SkillsRead
            | Permission::SkillsDeploy
            | Permission::FrogenvRead
            | Permission::FrogenvOperate
            | Permission::ToolsRead
            | Permission::MiseOperate
            | Permission::ProjectsReady
            | Permission::LabExtend
            | Permission::LabKeep
            | Permission::LabProvision => true,
        }
    }

    /// Every action in the catalog, in catalog order.
    pub open spec fn spec_all() -> Seq<Permission> {
        seq![
            Permission::SystemRead,
            Permission::OperationRead,
            Permission::OperationCreate,
            Permission::OperationCancel,
            Permission::SecretList,
            Permission::SecretRead,
            Permission::SecretWrite,
            Permission::SecretDelete,
            Permission::AuditRead,
            Permission::MachineRead,
            Permission::MachineReadSensitive,
            Permission::MachineCreate,
            Permission::MachineUpdate,
            Permission::MachineDelete,
            Permission::NodeEnroll,
            Permission::NodeRead,
            Permission::NodeRevoke,
            Permission::TailnetRead,
            Permission::TailnetConfig,
            Permission::ProjectsRead,
            Permission::ProjectsCreate,
            Permission::ProjectsUpdate,
            Permission::ProjectsDelete,
            Permission::ProjectsDiscover,
            Permission::ProjectsGitWrite,
            Permission::ProjectsFileWrite,
            Permission::SkillsRead,
            Permission::SkillsDeploy,
            Permission::FrogenvRead,
            Permission::FrogenvOperate,
            Permission::ToolsRead,
            Permission::MiseOperate,
            Permission::ProjectsReady,
            Permission::SkillsModify,
            Permission::EventsRead,
            Permission::SourceFetch,
            Permission::SourceActivate,
            Permission::ProxmoxRead,
            Permission::ProxmoxConfig,
            Permission::ImagesRead,
            Permission::ImagesConfig,
            Permission::LabRead,
            Permission::LabConfig,
            Permission::LabLease,
            Permission::LabExtend,
            Permission::LabKeep,
            Permission::LabProvision
        ]
    }

    /// Every action is in the catalog.
    pub proof fn lemma_all_contains(p: Permission)
        ensures
            Self::spec_all().contains(p),
    {
        match p {
            Permission::SystemRead => { assert(Self::spec_all()[0] == p); }
            Permission::OperationRead => { assert(Self::spec_all()[1] == p); }
            Permission::OperationCreate => { assert(Self::spec_all()[2] == p); }
            Permission::OperationCancel => { assert(Self::spec_all()[3] == p); }
            Permission::SecretList => { assert(Self::spec_all()[4] == p); }
            Permission::SecretRead => { assert(Self::spec_all()[5] == p); }
            Permission::SecretWrite => { assert(Self::spec_all()[6] == p); }
            Permission::SecretDelete => { assert(Self::spec_all()[7] == p); }
            Permission::AuditRead => { assert(Self::spec_all()[8] == p); }
            Permission::MachineRead => { assert(Self::spec_all()[9] == p); }
            Permission::MachineReadSensitive => { assert(Self::spec_all()[10] == p); }
            Permission::MachineCreate => { assert(Self::spec_all()[11] == p); }
            Permission::MachineUpdate => { assert(Self::spec_all()[12] == p); }
            Permission::MachineDelete => { assert(Self::spec_all()[13] == p); }
            Permission::NodeEnroll => { assert(Self::spec_all()[14] == p); }
            Permission::NodeRead => { assert(Self::spec_all()[15] == p); }
            Permission::NodeRevoke => { assert(Self::spec_all()[16] == p); }
            Permission::TailnetRead => { assert(Self::spec_all()[17] == p); }
            Permission::TailnetConfig => { assert(Self::spec_all()[18] == p); }
            Permission::ProjectsRead => { assert(Self::spec_all()[19] == p); }
            Permission::ProjectsCreate => { assert(Self::spec_all()[20] == p); }
            Permission::ProjectsUpdate => { assert(Self::spec_all()[21] == p); }
            Permission::ProjectsDelete => { assert(Self::spec_all()[22] == p); }
            Permission::ProjectsDiscover => { assert(Self::spec_all()[23] == p); }
            Permission::ProjectsGitWrite => { assert(Self::spec_all()[24] == p); }
            Permission::ProjectsFileWrite => { assert(Self::spec_all()[25] == p); }
            Permission::SkillsRead => { assert(Self::spec_all()[26] == p); }
            Permission::SkillsDeploy => { assert(Self::spec_all()[27] == p); }
            Permission::FrogenvRead => { assert(Self::spec_all()[28] == p); }
            Permission::FrogenvOperate => { assert(Self::spec_all()[29] == p); }
            Permission::ToolsRead => { assert(Self::spec_all()[30] == p); }
            Permission::MiseOperate => { assert(Self::spec_all()[31] == p); }
            Permission::ProjectsReady => { assert(Self::spec_all()[32] == p); }
            Permission::SkillsModify => { assert(Self::spec_all()[33] == p); }
            Permission::EventsRead => { assert(Self::spec_all()[34] == p); }
            Permission::SourceFetch => { assert(Self::spec_all()[35] == p); }
            Permission::SourceActivate => { assert(Self::spec_all()[36] == p); }
            Permission::ProxmoxRead => { assert(Self::spec_all()[37] == p); }
            Permission::ProxmoxConfig => { assert(Self::spec_all()[38] == p); }
            Permission::ImagesRead => { assert(Self::spec_all()[39] == p); }
            Permission::ImagesConfig => { assert(Self::spec_all()[40] == p); }
            Permission::LabRead => { assert(Self::spec_all()[41] == p); }
            Permission::LabConfig => { assert(Self::spec_all()[42] == p); }
            Permission::LabLease => { assert(Self::spec_all()[43] == p); }
            Permission::LabExtend => { assert(Self::spec_all()[44] == p); }
            Permission::LabKeep => { assert(Self::spec_all()[45] == p); }
            Permission::LabProvision => { assert(Self::spec_all()[46] == p); }
        }
    }

    /// Every action in the catalog. The allow-all adapter is defined over
    /// exactly this list, so "all" means this catalog and nothing outside it.
    pub fn all() -> (all: Vec<Permission>)
        ensures
            all@ == Self::spec_all(),
            forall|p: Permission| #[trigger] all@.contains(p),
    {
        let all = vec![
            Permission::SystemRead,
            Permission::OperationRead,
            Permission::OperationCreate,
            Permission::OperationCancel,
            Permission::SecretList,
            Permission::SecretRead,
            Permission::SecretWrite,
            Permission::SecretDelete,
            Permission::AuditRead,
            Permission::MachineRead,
            Permission::MachineReadSensitive,
            Permission::MachineCreate,
            Permission::MachineUpdate,
            Permission::MachineDelete,
            Permission::NodeEnroll,
            Permission::NodeRead,
            Permission::NodeRevoke,
            Permission::TailnetRead,
            Permission::TailnetConfig,
            Permission::ProjectsRead,
            Permission::ProjectsCreate,
            Permission::ProjectsUpdate,
            Permission::ProjectsDelete,
            Permission::ProjectsDiscover,
            Permission::ProjectsGitWrite,
            Permission::ProjectsFileWrite,
            Permission::SkillsRead,
            Permission::SkillsDeploy,
            Permission::FrogenvRead,
            Permission::FrogenvOperate,
            Permission::ToolsRead,
            Permission::MiseOperate,
            Permission::ProjectsReady,
            Permission::SkillsModify,
            Permission::EventsRead,
            Permission::SourceFetch,
            Permission::SourceActivate,
            Permission::ProxmoxRead,
            Permission::ProxmoxConfig,
            Permission::ImagesRead,
            Permission::ImagesConfig,
            Permission::LabRead,
            Permission::LabConfig,
            Permission::LabLease,
            Permission::LabExtend,
            Permission::LabKeep,
            Permission::LabProvision
        ];
        proof {
            assert forall|p: Permission| #[trigger] all@.contains(p) by {
                match p {
                    Permission::SystemRead => { assert(all@[0] == p); }
                    Permission::OperationRead => { assert(all@[1] == p); }
                    Permission::OperationCreate => { assert(all@[2] == p); }
                    Permission::OperationCancel => { assert(all@[3] == p); }
                    Permission::SecretList => { assert(all@[4] == p); }
                    Permission::SecretRead => { assert(all@[5] == p); }
                    Permission::SecretWrite => { assert(all@[6] == p); }
                    Permission::SecretDelete => { assert(all@[7] == p); }
                    Permission::AuditRead => { assert(all@[8] == p); }
                    Permission::MachineRead => { assert(all@[9] == p); }
                    Permission::MachineReadSensitive => { assert(all@[10] == p); }
                    Permission::MachineCreate => { assert(all@[11] == p); }
                    Permission::MachineUpdate => { assert(all@[12] == p); }
                    Permission::MachineDelete => { assert(all@[13] == p); }
                    Permission::NodeEnroll => { assert(all@[14] == p); }
                    Permission::NodeRead => { assert(all@[15] == p); }
                    Permission::NodeRevoke => { assert(all@[16] == p); }
                    Permission::TailnetRead => { assert(all@[17] == p); }
                    Permission::TailnetConfig => { assert(all@[18] == p); }
                    Permission::ProjectsRead => { assert(all@[19] == p); }
                    Permission::ProjectsCreate => { assert(all@[20] == p); }
                    Permission::ProjectsUpdate => { assert(all@[21] == p); }
                    Permission::ProjectsDelete => { assert(all@[22] == p); }
                    Permission::ProjectsDiscover => { assert(all@[23] == p); }
                    Permission::ProjectsGitWrite => { assert(all@[24] == p); }
                    Permission::ProjectsFileWrite => { assert(all@[25] == p); }
                    Permission::SkillsRead => { assert(all@[26] == p); }
                    Permission::SkillsDeploy => { assert(all@[27] == p); }
                    Permission::FrogenvRead => { assert(all@[28] == p); }
                    Permission::FrogenvOperate => { assert(all@[29] == p); }
                    Permission::ToolsRead => { assert(all@[30] == p); }
                    Permission::MiseOperate => { assert(all@[31] == p); }
                    Permission::ProjectsReady => { assert(all@[32] == p); }
                    Permission::SkillsModify => { assert(all@[33] == p); }
                    Permission::EventsRead => { assert(all@[34] == p); }
                    Permission::SourceFetch => { assert(all@[35] == p); }
                    Permission::SourceActivate => { assert(all@[36] == p); }
                    Permission::ProxmoxRead => { assert(all@[37] == p); }
                    Permission::ProxmoxConfig => { assert(all@[38] == p); }
                    Permission::ImagesRead => { assert(all@[39] == p); }
                    Permission::ImagesConfig => { assert(all@[40] == p); }
                    Permission::LabRead => { assert(all@[41] == p); }
                    Permission::LabConfig => { assert(all@[42] == p); }
                    Permission::LabLease => { assert(all@[43] == p); }
                    Permission::LabExtend => { assert(all@[44] == p); }
                    Permission::LabKeep => { assert(all@[45] == p); }
                    Permission::LabProvision => { assert(all@[46] == p); }
                }
            }
        }
        all
    }

    /// The stable action id, as recorded in decisions and audit events.
    pub fn id(self) -> (id: &'static str)
        ensures
            id@ == self.spec_id(),
    {
        match self {
            Permission::SystemRead => "system.read",
            Permission::OperationRead => "operation.read",
            Permission::OperationCreate => "operation.create",
            Permission::OperationCancel => "operation.cancel",
            Permission::SecretList => "secret.list",
            Permission::SecretRead => "secret.read",
            Permission::SecretWrite => "secret.write",
            Permission::SecretDelete => "secret.delete",
            Permission::AuditRead => "audit.read",
            Permission::MachineRead => "machine.read",
            Permission::MachineReadSensitive => "machine.read.sensitive",
            Permission::MachineCreate => "machine.create",
            Permission::MachineUpdate => "machine.update",
            Permission::MachineDelete => "machine.delete",
            Permission::NodeEnroll => "node.enroll",
            Permission::NodeRead => "node.read",
            Permission::NodeRevoke => "node.revoke",
            Permission::TailnetRead => "tailscale.read",
            Permission::TailnetConfig => "tailscale.config",
            Permission::ProjectsRead => "projects.read",
            Permission::ProjectsCreate => "projects.create",
            Permission::ProjectsUpdate => "projects.update",
            Permission::ProjectsDelete => "projects.delete",
            Permission::ProjectsDiscover => "projects.discover",
            Permission::ProjectsGitWrite => "projects.git.write",
            Permission::ProjectsFileWrite => "projects.file.write",
            Permission::SkillsRead => "skills.read",
            Permission::SkillsDeploy => "skills.deploy",
            Permission::FrogenvRead => "frogenv.read",
            Permission::FrogenvOperate => "frogenv.operate",
            Permission::ToolsRead => "tools.read",
            Permission::MiseOperate => "mise.operate",
            Permission::ProjectsReady => "projects.ready",
            Permission::SkillsModify => "skills.modify",
            Permission::EventsRead => "events.read",
            Permission::SourceFetch => "source.fetch",
            Permission::SourceActivate => "source.activate",
            Permission::ProxmoxRead => "proxmox.read",
            Permission::ProxmoxConfig => "proxmox.config",
            Permission::ImagesRead => "images.read",
            Permission::ImagesConfig => "images.config",
            Permission::LabRead => "lab.read",
            Permission::LabConfig => "lab.config",
            Permission::LabLease => "lab.lease",
            Permission::LabExtend => "lab.extend",
            Permission::LabKeep => "lab.keep",
            Permission::LabProvision => "lab.provision",
        }
    }

    /// Whether performing the action changes state or reveals sensitive
    /// material. Every mutation is risky; so are the reads that expose
    /// high-value information.
    pub fn is_risky(self) -> (risky: bool)
        ensures
            risky == self.spec_is_risky(),
    {
        match self {
            Permission::SystemRead
            | Permission::OperationRead
            | Permission::SecretList
            | Permission::AuditRead
            | Permission::MachineRead
            | Permission::NodeRead
            | Permission::ProjectsRead
            | Permission::EventsRead
            | Permission::ImagesRead
            | Permission::LabRead => false,
            Permission::OperationCreate
            | Permission::OperationCancel
            | Permission::SecretRead
            | Permission::SecretWrite
            | Permission::SecretDelete
            | Permission::MachineReadSensitive
            | Permission::MachineCreate
            | Permission::MachineUpdate
            | Permission::MachineDelete
            | Permission::NodeEnroll
            | Permission::NodeRevoke
            | Permission::TailnetRead
            | Permission::TailnetConfig
            | Permission::ProjectsCreate
            | Permission::ProjectsUpdate
            | Permission::ProjectsDelete
            | Permission::ProjectsDiscover
            | Permission::ProjectsGitWrite
            | Permission::ProjectsFileWrite
            | Permission::SkillsRead
            | Permission::SkillsDeploy
            | Permission::FrogenvRead
            | Permission::FrogenvOperate
            | Permission::ToolsRead
            | Permission::MiseOperate
            | Permission::ProjectsReady
            | Permission::SkillsModify
            | Permission::SourceFetch
            | Permission::SourceActivate
            | Permission::ProxmoxRead
            | Permission::ProxmoxConfig
            | Permission::ImagesConfig
            | Permission::LabConfig
            | Permission::LabLease
            | Permission::LabExtend
            | Permission::LabKeep
            | Permission::LabProvision => true,
        }
    }

    /// Whether the action names a specific resource. A catalog-level action
    /// without a resource is a malformed request, not an implicit wildcard.
    pub fn requires_resource(self) -> (requires: bool)
        ensures
            requires == self.spec_requires_resource(),
    {
        match self {
            Permission::SystemRead
            | Permission::OperationRead
            | Permission::OperationCreate
            | Permission::SecretList
            | Permission::SecretWrite
            | Permission::AuditRead
            | Permission::MachineRead
            | Permission::MachineCreate
            | Permission::TailnetRead
            | Permission::TailnetConfig
            | Permission::ProjectsRead
            | Permission::ProjectsCreate
            | Permission::SkillsModify
            | Permission::EventsRead
            | Permission::SourceFetch
            | Permission::SourceActivate
            | Permission::ProxmoxRead
            | Permission::ProxmoxConfig
            | Permission::ImagesRead
            | Permission::ImagesConfig
            | Permission::LabRead
            | Permission::LabConfig
            | Permission::LabLease => false,
            Permission::OperationCancel
            | Permission::SecretRead
            | Permission::SecretDelete
            | Permission::MachineReadSensitive
            | Permission::MachineUpdate
            | Permission::MachineDelete
            | Permission::NodeEnroll
            | Permission::NodeRead
            | Permission::NodeRevoke
            | Permission::ProjectsUpdate
            | Permission::ProjectsDelete
            | Permission::ProjectsDiscover
            | Permission::ProjectsGitWrite
            | Permission::ProjectsFileWrite
            | Permission::SkillsRead
            | Permission::SkillsDeploy
            | Permission::FrogenvRead
            | Permission::FrogenvOperate
            | Permission::ToolsRead
            | Permission::MiseOperate
            | Permission::ProjectsReady
            | Permission::LabExtend
            | Permission::LabKeep
            | Permission::LabProvision => true,
        }
    }
}
/// Stable reason identifiers. A decision's reason is part of the audit
/// surface: these strings persist in logs and events.
#[derive(Clone, Copy, Debug, PartialEq, Eq, Structural)]
pub enum ReasonId {
    /// The policy explicitly allows the action.
    PolicyAllow,
    /// Nothing allows the action for this principal.
    UnknownPrincipal,
    /// The action requires a resource and the request named none.
    MissingResource,
    /// The request names an action outside the catalog.
    UnknownAction,
}

impl ReasonId {
    /// The stable string of a reason.
    pub open spec fn spec_id(self) -> Seq<char> {
        match self {
            ReasonId::PolicyAllow => "policy.allow"@,
            ReasonId::UnknownPrincipal => "policy.unknown_principal"@,
            ReasonId::MissingResource => "policy.missing_resource"@,
            ReasonId::UnknownAction => "policy.unknown_action"@,
        }
    }

    /// The stable string recorded in decisions and audit events.
    pub fn id(self) -> (id: &'static str)
        ensures
            id@ == self.spec_id(),
    {
        match self {
            ReasonId::PolicyAllow => "policy.allow",
            ReasonId::UnknownPrincipal => "policy.unknown_principal",
            ReasonId::MissingResource => "policy.missing_resource",
            ReasonId::UnknownAction => "policy.unknown_action",
        }
    }
}

/// What the caller wants to do.
#[derive(Clone, Copy, Debug)]
pub struct AccessRequest<'a> {
    /// The acting principal's stable id.
    pub principal_id: &'a str,
    /// The catalog action.
    pub action: Permission,
    /// The specific resource, when the action names one.
    pub resource: Option<&'a str>,
}

/// The answer to one access request: a record to keep, carrying the stable
/// reason, so denials are explainable after the fact.
#[derive(Clone, Copy, Debug, PartialEq, Eq, Structural)]
pub struct Decision {
    /// Whether the action may proceed.
    pub allowed: bool,
    /// Why, in stable identifier form.
    pub reason: ReasonId,
}

impl Decision {
    /// The allow decision with [`ReasonId::PolicyAllow`].
    pub open spec fn spec_allow() -> Decision {
        Decision { allowed: true, reason: ReasonId::PolicyAllow }
    }

    /// A denial with the given reason.
    pub open spec fn spec_deny(reason: ReasonId) -> Decision {
        Decision { allowed: false, reason }
    }

    /// The allow decision with [`ReasonId::PolicyAllow`].
    pub fn allow() -> (decision: Self)
        ensures
            decision == Self::spec_allow(),
    {
        Decision { allowed: true, reason: ReasonId::PolicyAllow }
    }

    /// A denial with the given reason.
    pub fn deny(reason: ReasonId) -> (decision: Self)
        ensures
            decision == Self::spec_deny(reason),
    {
        Decision { allowed: false, reason }
    }

    /// The rendering of a decision: its reason followed by the verdict.
    pub open spec fn spec_describe(self) -> Seq<char> {
        self.reason.spec_id() + " "@ + if self.allowed { "allowed"@ } else { "denied"@ }
    }

    /// Renders the decision as `<reason> allowed` or `<reason> denied`.
    pub fn describe(&self) -> (text: String)
        ensures
            text@ == self.spec_describe(),
    {
        let text = String::from_str(self.reason.id());
        let text = text.concat(" ");
        if self.allowed {
            text.concat("allowed")
        } else {
            text.concat("denied")
        }
    }
}

/// The acting principal as use cases see it: the resolved caller's stable id.
#[derive(Clone, Debug, PartialEq, Eq)]
pub struct ActingPrincipal {
    /// The stable principal id.
    pub id: String,
}

/// The authorization port. Exactly one implementation is active in a
/// deployment; use cases call it through [`authorize`], never around it.
/// An implementation states its policy as `spec_decide`, and `decide`
/// answers exactly that; one written outside Verus gives `spec_decide` the
/// answer `decide` gives (nothing calls it at run time).
pub trait Authorizer {
    /// The policy's answer to one access request: a function of the
    /// authorizer and the request.
    spec fn spec_decide(&self, request: AccessRequest<'_>) -> Decision;

    /// Answers one access request. Must be cheap, side-effect free, and
    /// secret-free: it runs on every call, and the same request gets the
    /// same answer.
    fn decide(&self, request: AccessRequest<'_>) -> (decision: Decision)
        ensures
            decision == self.spec_decide(request),
    ;
}

/// Whether a request is malformed by the catalog's resource rule: the action
/// names a resource and the request carries none.
pub open spec fn missing_resource(request: AccessRequest<'_>) -> bool {
    request.action.spec_requires_resource() && request.resource is None
}

/// What [`authorize`] answers for a request, given the decision the active
/// authorizer gives it.
pub open spec fn authorization_result(request: AccessRequest<'_>, decision: Decision) -> Result<
    Decision,
    Decision,
> {
    if missing_resource(request) {
        Err(Decision::spec_deny(ReasonId::MissingResource))
    } else if decision.allowed {
        Ok(decision)
    } else {
        Err(decision)
    }
}

/// Applies the catalog's resource rule and the authorizer's decision to one
/// request: a malformed request is denied before any policy answers it, and
/// the policy's answer decides the rest.
pub fn authorize_with(request: AccessRequest<'_>, decision: Decision) -> (result: Result<
    Decision,
    Decision,
>)
    ensures
        result == authorization_result(request, decision),
{
    if request.action.requires_resource() && request.resource.is_none() {
        return Err(Decision::deny(ReasonId::MissingResource));
    }
    if decision.allowed {
        Ok(decision)
    } else {
        Err(decision)
    }
}

/// The single funnel every use case calls: it enforces the catalog's
/// resource rule and routes through the active [`Authorizer`]: the request
/// goes to `decide` unchanged, and [`authorize_with`] applies the answer.
///
/// # Errors
///
/// Returns the decision when it is a denial, carrying the stable reason.
pub fn authorize<A: Authorizer + ?Sized>(authorizer: &A, request: AccessRequest<'_>) -> (result:
    Result<Decision, Decision>)
    ensures
        result == authorization_result(request, authorizer.spec_decide(request)),
        missing_resource(request) ==> result == Err::<Decision, Decision>(
            Decision::spec_deny(ReasonId::MissingResource),
        ),
        result matches Ok(decision) ==> decision.allowed,
        result matches Err(decision) ==> !decision.allowed,
{
    if request.action.requires_resource() && request.resource.is_none() {
        return Err(Decision::deny(ReasonId::MissingResource));
    }
    let decision = authorizer.decide(request);
    authorize_with(request, decision)
}

/// A request that names no resource for a resource-scoped action is denied
/// with the missing-resource reason, whatever the authorizer would answer.
pub proof fn law_missing_resource_denied(request: AccessRequest<'_>, decision: Decision)
    requires
        request.action.spec_requires_resource(),
        request.resource is None,
    ensures
        authorization_result(request, decision) == Err::<Decision, Decision>(
            Decision::spec_deny(ReasonId::MissingResource),
        ),
{
}

/// An accepted request is always one the policy allowed: the funnel never
/// turns a denial into an acceptance, and every acceptance carries the
/// policy's own decision.
pub proof fn law_accepted_only_when_allowed(request: AccessRequest<'_>, decision: Decision)
    ensures
        authorization_result(request, decision) is Ok <==> (!missing_resource(request)
            && decision.allowed),
        authorization_result(request, decision) matches Ok(accepted) ==> accepted == decision,
{
}


/// The action an id names, when it names one.
pub open spec fn permission_of_id(s: Seq<char>) -> Option<Permission> {
    if s == "system.read"@ {
        Some(Permission::SystemRead)
    } else     if s == "operation.read"@ {
        Some(Permission::OperationRead)
    } else     if s == "operation.create"@ {
        Some(Permission::OperationCreate)
    } else     if s == "operation.cancel"@ {
        Some(Permission::OperationCancel)
    } else     if s == "secret.list"@ {
        Some(Permission::SecretList)
    } else     if s == "secret.read"@ {
        Some(Permission::SecretRead)
    } else     if s == "secret.write"@ {
        Some(Permission::SecretWrite)
    } else     if s == "secret.delete"@ {
        Some(Permission::SecretDelete)
    } else     if s == "audit.read"@ {
        Some(Permission::AuditRead)
    } else     if s == "machine.read"@ {
        Some(Permission::MachineRead)
    } else     if s == "machine.read.sensitive"@ {
        Some(Permission::MachineReadSensitive)
    } else     if s == "machine.create"@ {
        Some(Permission::MachineCreate)
    } else     if s == "machine.update"@ {
        Some(Permission::MachineUpdate)
    } else     if s == "machine.delete"@ {
        Some(Permission::MachineDelete)
    } else     if s == "node.enroll"@ {
        Some(Permission::NodeEnroll)
    } else     if s == "node.read"@ {
        Some(Permission::NodeRead)
    } else     if s == "node.revoke"@ {
        Some(Permission::NodeRevoke)
    } else     if s == "tailscale.read"@ {
        Some(Permission::TailnetRead)
    } else     if s == "tailscale.config"@ {
        Some(Permission::TailnetConfig)
    } else     if s == "projects.read"@ {
        Some(Permission::ProjectsRead)
    } else     if s == "projects.create"@ {
        Some(Permission::ProjectsCreate)
    } else     if s == "projects.update"@ {
        Some(Permission::ProjectsUpdate)
    } else     if s == "projects.delete"@ {
        Some(Permission::ProjectsDelete)
    } else     if s == "projects.discover"@ {
        Some(Permission::ProjectsDiscover)
    } else     if s == "projects.git.write"@ {
        Some(Permission::ProjectsGitWrite)
    } else     if s == "projects.file.write"@ {
        Some(Permission::ProjectsFileWrite)
    } else     if s == "skills.read"@ {
        Some(Permission::SkillsRead)
    } else     if s == "skills.deploy"@ {
        Some(Permission::SkillsDeploy)
    } else     if s == "frogenv.read"@ {
        Some(Permission::FrogenvRead)
    } else     if s == "frogenv.operate"@ {
        Some(Permission::FrogenvOperate)
    } else     if s == "tools.read"@ {
        Some(Permission::ToolsRead)
    } else     if s == "mise.operate"@ {
        Some(Permission::MiseOperate)
    } else     if s == "projects.ready"@ {
        Some(Permission::ProjectsReady)
    } else     if s == "skills.modify"@ {
        Some(Permission::SkillsModify)
    } else     if s == "events.read"@ {
        Some(Permission::EventsRead)
    } else     if s == "source.fetch"@ {
        Some(Permission::SourceFetch)
    } else     if s == "source.activate"@ {
        Some(Permission::SourceActivate)
    } else     if s == "proxmox.read"@ {
        Some(Permission::ProxmoxRead)
    } else     if s == "proxmox.config"@ {
        Some(Permission::ProxmoxConfig)
    } else     if s == "images.read"@ {
        Some(Permission::ImagesRead)
    } else     if s == "images.config"@ {
        Some(Permission::ImagesConfig)
    } else     if s == "lab.read"@ {
        Some(Permission::LabRead)
    } else     if s == "lab.config"@ {
        Some(Permission::LabConfig)
    } else     if s == "lab.lease"@ {
        Some(Permission::LabLease)
    } else     if s == "lab.extend"@ {
        Some(Permission::LabExtend)
    } else     if s == "lab.keep"@ {
        Some(Permission::LabKeep)
    } else     if s == "lab.provision"@ {
        Some(Permission::LabProvision)
    } else {
        None
    }
}

proof fn lemma_id_0()
    ensures
        permission_of_id("system.read"@) == Some(Permission::SystemRead),
{
    reveal_strlit("system.read");
}

proof fn lemma_id_1()
    ensures
        permission_of_id("operation.read"@) == Some(Permission::OperationRead),
{
    reveal_strlit("operation.read");
    reveal_strlit("system.read");
    assert("operation.read"@.len() != "system.read"@.len());
}

proof fn lemma_id_2()
    ensures
        permission_of_id("operation.create"@) == Some(Permission::OperationCreate),
{
    reveal_strlit("operation.create");
    reveal_strlit("system.read");
    assert("operation.create"@.len() != "system.read"@.len());
    reveal_strlit("operation.read");
    assert("operation.create"@.len() != "operation.read"@.len());
}

proof fn lemma_id_3()
    ensures
        permission_of_id("operation.cancel"@) == Some(Permission::OperationCancel),
{
    reveal_strlit("operation.cancel");
    reveal_strlit("system.read");
    assert("operation.cancel"@.len() != "system.read"@.len());
    reveal_strlit("operation.read");
    assert("operation.cancel"@.len() != "operation.read"@.len());
    reveal_strlit("operation.create");
    assert("operation.cancel"@[11] != "operation.create"@[11]);
}

proof fn lemma_id_4()
    ensures
        permission_of_id("secret.list"@) == Some(Permission::SecretList),
{
    reveal_strlit("secret.list");
    reveal_strlit("system.read");
    assert("secret.list"@[1] != "system.read"@[1]);
    reveal_strlit("operation.read");
    assert("secret.list"@.len() != "operation.read"@.len());
    reveal_strlit("operation.create");
    assert("secret.list"@.len() != "operation.create"@.len());
    reveal_strlit("operation.cancel");
    assert("secret.list"@.len() != "operation.cancel"@.len());
}

proof fn lemma_id_5()
    ensures
        permission_of_id("secret.read"@) == Some(Permission::SecretRead),
{
    reveal_strlit("secret.read");
    reveal_strlit("system.read");
    assert("secret.read"@[1] != "system.read"@[1]);
    reveal_strlit("operation.read");
    assert("secret.read"@.len() != "operation.read"@.len());
    reveal_strlit("operation.create");
    assert("secret.read"@.len() != "operation.create"@.len());
    reveal_strlit("operation.cancel");
    assert("secret.read"@.len() != "operation.cancel"@.len());
    reveal_strlit("secret.list");
    assert("secret.read"@[7] != "secret.list"@[7]);
}

proof fn lemma_id_6()
    ensures
        permission_of_id("secret.write"@) == Some(Permission::SecretWrite),
{
    reveal_strlit("secret.write");
    reveal_strlit("system.read");
    assert("secret.write"@.len() != "system.read"@.len());
    reveal_strlit("operation.read");
    assert("secret.write"@.len() != "operation.read"@.len());
    reveal_strlit("operation.create");
    assert("secret.write"@.len() != "operation.create"@.len());
    reveal_strlit("operation.cancel");
    assert("secret.write"@.len() != "operation.cancel"@.len());
    reveal_strlit("secret.list");
    assert("secret.write"@.len() != "secret.list"@.len());
    reveal_strlit("secret.read");
    assert("secret.write"@.len() != "secret.read"@.len());
}

proof fn lemma_id_7()
    ensures
        permission_of_id("secret.delete"@) == Some(Permission::SecretDelete),
{
    reveal_strlit("secret.delete");
    reveal_strlit("system.read");
    assert("secret.delete"@.len() != "system.read"@.len());
    reveal_strlit("operation.read");
    assert("secret.delete"@.len() != "operation.read"@.len());
    reveal_strlit("operation.create");
    assert("secret.delete"@.len() != "operation.create"@.len());
    reveal_strlit("operation.cancel");
    assert("secret.delete"@.len() != "operation.cancel"@.len());
    reveal_strlit("secret.list");
    assert("secret.delete"@.len() != "secret.list"@.len());
    reveal_strlit("secret.read");
    assert("secret.delete"@.len() != "secret.read"@.len());
    reveal_strlit("secret.write");
    assert("secret.delete"@.len() != "secret.write"@.len());
}

proof fn lemma_id_8()
    ensures
        permission_of_id("audit.read"@) == Some(Permission::AuditRead),
{
    reveal_strlit("audit.read");
    reveal_strlit("system.read");
    assert("audit.read"@.len() != "system.read"@.len());
    reveal_strlit("operation.read");
    assert("audit.read"@.len() != "operation.read"@.len());
    reveal_strlit("operation.create");
    assert("audit.read"@.len() != "operation.create"@.len());
    reveal_strlit("operation.cancel");
    assert("audit.read"@.len() != "operation.cancel"@.len());
    reveal_strlit("secret.list");
    assert("audit.read"@.len() != "secret.list"@.len());
    reveal_strlit("secret.read");
    assert("audit.read"@.len() != "secret.read"@.len());
    reveal_strlit("secret.write");
    assert("audit.read"@.len() != "secret.write"@.len());
    reveal_strlit("secret.delete");
    assert("audit.read"@.len() != "secret.delete"@.len());
}

proof fn lemma_id_9()
    ensures
        permission_of_id("machine.read"@) == Some(Permission::MachineRead),
{
    reveal_strlit("machine.read");
    reveal_strlit("system.read");
    assert("machine.read"@.len() != "system.read"@.len());
    reveal_strlit("operation.read");
    assert("machine.read"@.len() != "operation.read"@.len());
    reveal_strlit("operation.create");
    assert("machine.read"@.len() != "operation.create"@.len());
    reveal_strlit("operation.cancel");
    assert("machine.read"@.len() != "operation.cancel"@.len());
    reveal_strlit("secret.list");
    assert("machine.read"@.len() != "secret.list"@.len());
    reveal_strlit("secret.read");
    assert("machine.read"@.len() != "secret.read"@.len());
    reveal_strlit("secret.write");
    assert("machine.read"@[0] != "secret.write"@[0]);
    reveal_strlit("secret.delete");
    assert("machine.read"@.len() != "secret.delete"@.len());
    reveal_strlit("audit.read");
    assert("machine.read"@.len() != "audit.read"@.len());
}

proof fn lemma_id_10()
    ensures
        permission_of_id("machine.read.sensitive"@) == Some(Permission::MachineReadSensitive),
{
    reveal_strlit("machine.read.sensitive");
    reveal_strlit("system.read");
    assert("machine.read.sensitive"@.len() != "system.read"@.len());
    reveal_strlit("operation.read");
    assert("machine.read.sensitive"@.len() != "operation.read"@.len());
    reveal_strlit("operation.create");
    assert("machine.read.sensitive"@.len() != "operation.create"@.len());
    reveal_strlit("operation.cancel");
    assert("machine.read.sensitive"@.len() != "operation.cancel"@.len());
    reveal_strlit("secret.list");
    assert("machine.read.sensitive"@.len() != "secret.list"@.len());
    reveal_strlit("secret.read");
    assert("machine.read.sensitive"@.len() != "secret.read"@.len());
    reveal_strlit("secret.write");
    assert("machine.read.sensitive"@.len() != "secret.write"@.len());
    reveal_strlit("secret.delete");
    assert("machine.read.sensitive"@.len() != "secret.delete"@.len());
    reveal_strlit("audit.read");
    assert("machine.read.sensitive"@.len() != "audit.read"@.len());
    reveal_strlit("machine.read");
    assert("machine.read.sensitive"@.len() != "machine.read"@.len());
}

proof fn lemma_id_11()
    ensures
        permission_of_id("machine.create"@) == Some(Permission::MachineCreate),
{
    reveal_strlit("machine.create");
    reveal_strlit("system.read");
    assert("machine.create"@.len() != "system.read"@.len());
    reveal_strlit("operation.read");
    assert("machine.create"@[0] != "operation.read"@[0]);
    reveal_strlit("operation.create");
    assert("machine.create"@.len() != "operation.create"@.len());
    reveal_strlit("operation.cancel");
    assert("machine.create"@.len() != "operation.cancel"@.len());
    reveal_strlit("secret.list");
    assert("machine.create"@.len() != "secret.list"@.len());
    reveal_strlit("secret.read");
    assert("machine.create"@.len() != "secret.read"@.len());
    reveal_strlit("secret.write");
    assert("machine.create"@.len() != "secret.write"@.len());
    reveal_strlit("secret.delete");
    assert("machine.create"@.len() != "secret.delete"@.len());
    reveal_strlit("audit.read");
    assert("machine.create"@.len() != "audit.read"@.len());
    reveal_strlit("machine.read");
    assert("machine.create"@.len() != "machine.read"@.len());
    reveal_strlit("machine.read.sensitive");
    assert("machine.create"@.len() != "machine.read.sensitive"@.len());
}

proof fn lemma_id_12()
    ensures
        permission_of_id("machine.update"@) == Some(Permission::MachineUpdate),
{
    reveal_strlit("machine.update");
    reveal_strlit("system.read");
    assert("machine.update"@.len() != "system.read"@.len());
    reveal_strlit("operation.read");
    assert("machine.update"@[0] != "operation.read"@[0]);
    reveal_strlit("operation.create");
    assert("machine.update"@.len() != "operation.create"@.len());
    reveal_strlit("operation.cancel");
    assert("machine.update"@.len() != "operation.cancel"@.len());
    reveal_strlit("secret.list");
    assert("machine.update"@.len() != "secret.list"@.len());
    reveal_strlit("secret.read");
    assert("machine.update"@.len() != "secret.read"@.len());
    reveal_strlit("secret.write");
    assert("machine.update"@.len() != "secret.write"@.len());
    reveal_strlit("secret.delete");
    assert("machine.update"@.len() != "secret.delete"@.len());
    reveal_strlit("audit.read");
    assert("machine.update"@.len() != "audit.read"@.len());
    reveal_strlit("machine.read");
    assert("machine.update"@.len() != "machine.read"@.len());
    reveal_strlit("machine.read.sensitive");
    assert("machine.update"@.len() != "machine.read.sensitive"@.len());
    reveal_strlit("machine.create");
    assert("machine.update"@[8] != "machine.create"@[8]);
}

proof fn lemma_id_13()
    ensures
        permission_of_id("machine.delete"@) == Some(Permission::MachineDelete),
{
    reveal_strlit("machine.delete");
    reveal_strlit("system.read");
    assert("machine.delete"@.len() != "system.read"@.len());
    reveal_strlit("operation.read");
    assert("machine.delete"@[0] != "operation.read"@[0]);
    reveal_strlit("operation.create");
    assert("machine.delete"@.len() != "operation.create"@.len());
    reveal_strlit("operation.cancel");
    assert("machine.delete"@.len() != "operation.cancel"@.len());
    reveal_strlit("secret.list");
    assert("machine.delete"@.len() != "secret.list"@.len());
    reveal_strlit("secret.read");
    assert("machine.delete"@.len() != "secret.read"@.len());
    reveal_strlit("secret.write");
    assert("machine.delete"@.len() != "secret.write"@.len());
    reveal_strlit("secret.delete");
    assert("machine.delete"@.len() != "secret.delete"@.len());
    reveal_strlit("audit.read");
    assert("machine.delete"@.len() != "audit.read"@.len());
    reveal_strlit("machine.read");
    assert("machine.delete"@.len() != "machine.read"@.len());
    reveal_strlit("machine.read.sensitive");
    assert("machine.delete"@.len() != "machine.read.sensitive"@.len());
    reveal_strlit("machine.create");
    assert("machine.delete"@[8] != "machine.create"@[8]);
    reveal_strlit("machine.update");
    assert("machine.delete"@[8] != "machine.update"@[8]);
}

proof fn lemma_id_14()
    ensures
        permission_of_id("node.enroll"@) == Some(Permission::NodeEnroll),
{
    reveal_strlit("node.enroll");
    reveal_strlit("system.read");
    assert("node.enroll"@[0] != "system.read"@[0]);
    reveal_strlit("operation.read");
    assert("node.enroll"@.len() != "operation.read"@.len());
    reveal_strlit("operation.create");
    assert("node.enroll"@.len() != "operation.create"@.len());
    reveal_strlit("operation.cancel");
    assert("node.enroll"@.len() != "operation.cancel"@.len());
    reveal_strlit("secret.list");
    assert("node.enroll"@[0] != "secret.list"@[0]);
    reveal_strlit("secret.read");
    assert("node.enroll"@[0] != "secret.read"@[0]);
    reveal_strlit("secret.write");
    assert("node.enroll"@.len() != "secret.write"@.len());
    reveal_strlit("secret.delete");
    assert("node.enroll"@.len() != "secret.delete"@.len());
    reveal_strlit("audit.read");
    assert("node.enroll"@.len() != "audit.read"@.len());
    reveal_strlit("machine.read");
    assert("node.enroll"@.len() != "machine.read"@.len());
    reveal_strlit("machine.read.sensitive");
    assert("node.enroll"@.len() != "machine.read.sensitive"@.len());
    reveal_strlit("machine.create");
    assert("node.enroll"@.len() != "machine.create"@.len());
    reveal_strlit("machine.update");
    assert("node.enroll"@.len() != "machine.update"@.len());
    reveal_strlit("machine.delete");
    assert("node.enroll"@.len() != "machine.delete"@.len());
}

proof fn lemma_id_15()
    ensures
        permission_of_id("node.read"@) == Some(Permission::NodeRead),
{
    reveal_strlit("node.read");
    reveal_strlit("system.read");
    assert("node.read"@.len() != "system.read"@.len());
    reveal_strlit("operation.read");
    assert("node.read"@.len() != "operation.read"@.len());
    reveal_strlit("operation.create");
    assert("node.read"@.len() != "operation.create"@.len());
    reveal_strlit("operation.cancel");
    assert("node.read"@.len() != "operation.cancel"@.len());
    reveal_strlit("secret.list");
    assert("node.read"@.len() != "secret.list"@.len());
    reveal_strlit("secret.read");
    assert("node.read"@.len() != "secret.read"@.len());
    reveal_strlit("secret.write");
    assert("node.read"@.len() != "secret.write"@.len());
    reveal_strlit("secret.delete");
    assert("node.read"@.len() != "secret.delete"@.len());
    reveal_strlit("audit.read");
    assert("node.read"@.len() != "audit.read"@.len());
    reveal_strlit("machine.read");
    assert("node.read"@.len() != "machine.read"@.len());
    reveal_strlit("machine.read.sensitive");
    assert("node.read"@.len() != "machine.read.sensitive"@.len());
    reveal_strlit("machine.create");
    assert("node.read"@.len() != "machine.create"@.len());
    reveal_strlit("machine.update");
    assert("node.read"@.len() != "machine.update"@.len());
    reveal_strlit("machine.delete");
    assert("node.read"@.len() != "machine.delete"@.len());
    reveal_strlit("node.enroll");
    assert("node.read"@.len() != "node.enroll"@.len());
}

proof fn lemma_id_16()
    ensures
        permission_of_id("node.revoke"@) == Some(Permission::NodeRevoke),
{
    reveal_strlit("node.revoke");
    reveal_strlit("system.read");
    assert("node.revoke"@[0] != "system.read"@[0]);
    reveal_strlit("operation.read");
    assert("node.revoke"@.len() != "operation.read"@.len());
    reveal_strlit("operation.create");
    assert("node.revoke"@.len() != "operation.create"@.len());
    reveal_strlit("operation.cancel");
    assert("node.revoke"@.len() != "operation.cancel"@.len());
    reveal_strlit("secret.list");
    assert("node.revoke"@[0] != "secret.list"@[0]);
    reveal_strlit("secret.read");
    assert("node.revoke"@[0] != "secret.read"@[0]);
    reveal_strlit("secret.write");
    assert("node.revoke"@.len() != "secret.write"@.len());
    reveal_strlit("secret.delete");
    assert("node.revoke"@.len() != "secret.delete"@.len());
    reveal_strlit("audit.read");
    assert("node.revoke"@.len() != "audit.read"@.len());
    reveal_strlit("machine.read");
    assert("node.revoke"@.len() != "machine.read"@.len());
    reveal_strlit("machine.read.sensitive");
    assert("node.revoke"@.len() != "machine.read.sensitive"@.len());
    reveal_strlit("machine.create");
    assert("node.revoke"@.len() != "machine.create"@.len());
    reveal_strlit("machine.update");
    assert("node.revoke"@.len() != "machine.update"@.len());
    reveal_strlit("machine.delete");
    assert("node.revoke"@.len() != "machine.delete"@.len());
    reveal_strlit("node.enroll");
    assert("node.revoke"@[5] != "node.enroll"@[5]);
    reveal_strlit("node.read");
    assert("node.revoke"@.len() != "node.read"@.len());
}

proof fn lemma_id_17()
    ensures
        permission_of_id("tailscale.read"@) == Some(Permission::TailnetRead),
{
    reveal_strlit("tailscale.read");
    reveal_strlit("system.read");
    assert("tailscale.read"@.len() != "system.read"@.len());
    reveal_strlit("operation.read");
    assert("tailscale.read"@[0] != "operation.read"@[0]);
    reveal_strlit("operation.create");
    assert("tailscale.read"@.len() != "operation.create"@.len());
    reveal_strlit("operation.cancel");
    assert("tailscale.read"@.len() != "operation.cancel"@.len());
    reveal_strlit("secret.list");
    assert("tailscale.read"@.len() != "secret.list"@.len());
    reveal_strlit("secret.read");
    assert("tailscale.read"@.len() != "secret.read"@.len());
    reveal_strlit("secret.write");
    assert("tailscale.read"@.len() != "secret.write"@.len());
    reveal_strlit("secret.delete");
    assert("tailscale.read"@.len() != "secret.delete"@.len());
    reveal_strlit("audit.read");
    assert("tailscale.read"@.len() != "audit.read"@.len());
    reveal_strlit("machine.read");
    assert("tailscale.read"@.len() != "machine.read"@.len());
    reveal_strlit("machine.read.sensitive");
    assert("tailscale.read"@.len() != "machine.read.sensitive"@.len());
    reveal_strlit("machine.create");
    assert("tailscale.read"@[0] != "machine.create"@[0]);
    reveal_strlit("machine.update");
    assert("tailscale.read"@[0] != "machine.update"@[0]);
    reveal_strlit("machine.delete");
    assert("tailscale.read"@[0] != "machine.delete"@[0]);
    reveal_strlit("node.enroll");
    assert("tailscale.read"@.len() != "node.enroll"@.len());
    reveal_strlit("node.read");
    assert("tailscale.read"@.len() != "node.read"@.len());
    reveal_strlit("node.revoke");
    assert("tailscale.read"@.len() != "node.revoke"@.len());
}

proof fn lemma_id_18()
    ensures
        permission_of_id("tailscale.config"@) == Some(Permission::TailnetConfig),
{
    reveal_strlit("tailscale.config");
    reveal_strlit("system.read");
    assert("tailscale.config"@.len() != "system.read"@.len());
    reveal_strlit("operation.read");
    assert("tailscale.config"@.len() != "operation.read"@.len());
    reveal_strlit("operation.create");
    assert("tailscale.config"@[0] != "operation.create"@[0]);
    reveal_strlit("operation.cancel");
    assert("tailscale.config"@[0] != "operation.cancel"@[0]);
    reveal_strlit("secret.list");
    assert("tailscale.config"@.len() != "secret.list"@.len());
    reveal_strlit("secret.read");
    assert("tailscale.config"@.len() != "secret.read"@.len());
    reveal_strlit("secret.write");
    assert("tailscale.config"@.len() != "secret.write"@.len());
    reveal_strlit("secret.delete");
    assert("tailscale.config"@.len() != "secret.delete"@.len());
    reveal_strlit("audit.read");
    assert("tailscale.config"@.len() != "audit.read"@.len());
    reveal_strlit("machine.read");
    assert("tailscale.config"@.len() != "machine.read"@.len());
    reveal_strlit("machine.read.sensitive");
    assert("tailscale.config"@.len() != "machine.read.sensitive"@.len());
    reveal_strlit("machine.create");
    assert("tailscale.config"@.len() != "machine.create"@.len());
    reveal_strlit("machine.update");
    assert("tailscale.config"@.len() != "machine.update"@.len());
    reveal_strlit("machine.delete");
    assert("tailscale.config"@.len() != "machine.delete"@.len());
    reveal_strlit("node.enroll");
    assert("tailscale.config"@.len() != "node.enroll"@.len());
    reveal_strlit("node.read");
    assert("tailscale.config"@.len() != "node.read"@.len());
    reveal_strlit("node.revoke");
    assert("tailscale.config"@.len() != "node.revoke"@.len());
    reveal_strlit("tailscale.read");
    assert("tailscale.config"@.len() != "tailscale.read"@.len());
}

proof fn lemma_id_19()
    ensures
        permission_of_id("projects.read"@) == Some(Permission::ProjectsRead),
{
    reveal_strlit("projects.read");
    reveal_strlit("system.read");
    assert("projects.read"@.len() != "system.read"@.len());
    reveal_strlit("operation.read");
    assert("projects.read"@.len() != "operation.read"@.len());
    reveal_strlit("operation.create");
    assert("projects.read"@.len() != "operation.create"@.len());
    reveal_strlit("operation.cancel");
    assert("projects.read"@.len() != "operation.cancel"@.len());
    reveal_strlit("secret.list");
    assert("projects.read"@.len() != "secret.list"@.len());
    reveal_strlit("secret.read");
    assert("projects.read"@.len() != "secret.read"@.len());
    reveal_strlit("secret.write");
    assert("projects.read"@.len() != "secret.write"@.len());
    reveal_strlit("secret.delete");
    assert("projects.read"@[0] != "secret.delete"@[0]);
    reveal_strlit("audit.read");
    assert("projects.read"@.len() != "audit.read"@.len());
    reveal_strlit("machine.read");
    assert("projects.read"@.len() != "machine.read"@.len());
    reveal_strlit("machine.read.sensitive");
    assert("projects.read"@.len() != "machine.read.sensitive"@.len());
    reveal_strlit("machine.create");
    assert("projects.read"@.len() != "machine.create"@.len());
    reveal_strlit("machine.update");
    assert("projects.read"@.len() != "machine.update"@.len());
    reveal_strlit("machine.delete");
    assert("projects.read"@.len() != "machine.delete"@.len());
    reveal_strlit("node.enroll");
    assert("projects.read"@.len() != "node.enroll"@.len());
    reveal_strlit("node.read");
    assert("projects.read"@.len() != "node.read"@.len());
    reveal_strlit("node.revoke");
    assert("projects.read"@.len() != "node.revoke"@.len());
    reveal_strlit("tailscale.read");
    assert("projects.read"@.len() != "tailscale.read"@.len());
    reveal_strlit("tailscale.config");
    assert("projects.read"@.len() != "tailscale.config"@.len());
}

proof fn lemma_id_20()
    ensures
        permission_of_id("projects.create"@) == Some(Permission::ProjectsCreate),
{
    reveal_strlit("projects.create");
    reveal_strlit("system.read");
    assert("projects.create"@.len() != "system.read"@.len());
    reveal_strlit("operation.read");
    assert("projects.create"@.len() != "operation.read"@.len());
    reveal_strlit("operation.create");
    assert("projects.create"@.len() != "operation.create"@.len());
    reveal_strlit("operation.cancel");
    assert("projects.create"@.len() != "operation.cancel"@.len());
    reveal_strlit("secret.list");
    assert("projects.create"@.len() != "secret.list"@.len());
    reveal_strlit("secret.read");
    assert("projects.create"@.len() != "secret.read"@.len());
    reveal_strlit("secret.write");
    assert("projects.create"@.len() != "secret.write"@.len());
    reveal_strlit("secret.delete");
    assert("projects.create"@.len() != "secret.delete"@.len());
    reveal_strlit("audit.read");
    assert("projects.create"@.len() != "audit.read"@.len());
    reveal_strlit("machine.read");
    assert("projects.create"@.len() != "machine.read"@.len());
    reveal_strlit("machine.read.sensitive");
    assert("projects.create"@.len() != "machine.read.sensitive"@.len());
    reveal_strlit("machine.create");
    assert("projects.create"@.len() != "machine.create"@.len());
    reveal_strlit("machine.update");
    assert("projects.create"@.len() != "machine.update"@.len());
    reveal_strlit("machine.delete");
    assert("projects.create"@.len() != "machine.delete"@.len());
    reveal_strlit("node.enroll");
    assert("projects.create"@.len() != "node.enroll"@.len());
    reveal_strlit("node.read");
    assert("projects.create"@.len() != "node.read"@.len());
    reveal_strlit("node.revoke");
    assert("projects.create"@.len() != "node.revoke"@.len());
    reveal_strlit("tailscale.read");
    assert("projects.create"@.len() != "tailscale.read"@.len());
    reveal_strlit("tailscale.config");
    assert("projects.create"@.len() != "tailscale.config"@.len());
    reveal_strlit("projects.read");
    assert("projects.create"@.len() != "projects.read"@.len());
}

proof fn lemma_id_21()
    ensures
        permission_of_id("projects.update"@) == Some(Permission::ProjectsUpdate),
{
    reveal_strlit("projects.update");
    reveal_strlit("system.read");
    assert("projects.update"@.len() != "system.read"@.len());
    reveal_strlit("operation.read");
    assert("projects.update"@.len() != "operation.read"@.len());
    reveal_strlit("operation.create");
    assert("projects.update"@.len() != "operation.create"@.len());
    reveal_strlit("operation.cancel");
    assert("projects.update"@.len() != "operation.cancel"@.len());
    reveal_strlit("secret.list");
    assert("projects.update"@.len() != "secret.list"@.len());
    reveal_strlit("secret.read");
    assert("projects.update"@.len() != "secret.read"@.len());
    reveal_strlit("secret.write");
    assert("projects.update"@.len() != "secret.write"@.len());
    reveal_strlit("secret.delete");
    assert("projects.update"@.len() != "secret.delete"@.len());
    reveal_strlit("audit.read");
    assert("projects.update"@.len() != "audit.read"@.len());
    reveal_strlit("machine.read");
    assert("projects.update"@.len() != "machine.read"@.len());
    reveal_strlit("machine.read.sensitive");
    assert("projects.update"@.len() != "machine.read.sensitive"@.len());
    reveal_strlit("machine.create");
    assert("projects.update"@.len() != "machine.create"@.len());
    reveal_strlit("machine.update");
    assert("projects.update"@.len() != "machine.update"@.len());
    reveal_strlit("machine.delete");
    assert("projects.update"@.len() != "machine.delete"@.len());
    reveal_strlit("node.enroll");
    assert("projects.update"@.len() != "node.enroll"@.len());
    reveal_strlit("node.read");
    assert("projects.update"@.len() != "node.read"@.len());
    reveal_strlit("node.revoke");
    assert("projects.update"@.len() != "node.revoke"@.len());
    reveal_strlit("tailscale.read");
    assert("projects.update"@.len() != "tailscale.read"@.len());
    reveal_strlit("tailscale.config");
    assert("projects.update"@.len() != "tailscale.config"@.len());
    reveal_strlit("projects.read");
    assert("projects.update"@.len() != "projects.read"@.len());
    reveal_strlit("projects.create");
    assert("projects.update"@[9] != "projects.create"@[9]);
}

proof fn lemma_id_22()
    ensures
        permission_of_id("projects.delete"@) == Some(Permission::ProjectsDelete),
{
    reveal_strlit("projects.delete");
    reveal_strlit("system.read");
    assert("projects.delete"@.len() != "system.read"@.len());
    reveal_strlit("operation.read");
    assert("projects.delete"@.len() != "operation.read"@.len());
    reveal_strlit("operation.create");
    assert("projects.delete"@.len() != "operation.create"@.len());
    reveal_strlit("operation.cancel");
    assert("projects.delete"@.len() != "operation.cancel"@.len());
    reveal_strlit("secret.list");
    assert("projects.delete"@.len() != "secret.list"@.len());
    reveal_strlit("secret.read");
    assert("projects.delete"@.len() != "secret.read"@.len());
    reveal_strlit("secret.write");
    assert("projects.delete"@.len() != "secret.write"@.len());
    reveal_strlit("secret.delete");
    assert("projects.delete"@.len() != "secret.delete"@.len());
    reveal_strlit("audit.read");
    assert("projects.delete"@.len() != "audit.read"@.len());
    reveal_strlit("machine.read");
    assert("projects.delete"@.len() != "machine.read"@.len());
    reveal_strlit("machine.read.sensitive");
    assert("projects.delete"@.len() != "machine.read.sensitive"@.len());
    reveal_strlit("machine.create");
    assert("projects.delete"@.len() != "machine.create"@.len());
    reveal_strlit("machine.update");
    assert("projects.delete"@.len() != "machine.update"@.len());
    reveal_strlit("machine.delete");
    assert("projects.delete"@.len() != "machine.delete"@.len());
    reveal_strlit("node.enroll");
    assert("projects.delete"@.len() != "node.enroll"@.len());
    reveal_strlit("node.read");
    assert("projects.delete"@.len() != "node.read"@.len());
    reveal_strlit("node.revoke");
    assert("projects.delete"@.len() != "node.revoke"@.len());
    reveal_strlit("tailscale.read");
    assert("projects.delete"@.len() != "tailscale.read"@.len());
    reveal_strlit("tailscale.config");
    assert("projects.delete"@.len() != "tailscale.config"@.len());
    reveal_strlit("projects.read");
    assert("projects.delete"@.len() != "projects.read"@.len());
    reveal_strlit("projects.create");
    assert("projects.delete"@[9] != "projects.create"@[9]);
    reveal_strlit("projects.update");
    assert("projects.delete"@[9] != "projects.update"@[9]);
}

proof fn lemma_id_23()
    ensures
        permission_of_id("projects.discover"@) == Some(Permission::ProjectsDiscover),
{
    reveal_strlit("projects.discover");
    reveal_strlit("system.read");
    assert("projects.discover"@.len() != "system.read"@.len());
    reveal_strlit("operation.read");
    assert("projects.discover"@.len() != "operation.read"@.len());
    reveal_strlit("operation.create");
    assert("projects.discover"@.len() != "operation.create"@.len());
    reveal_strlit("operation.cancel");
    assert("projects.discover"@.len() != "operation.cancel"@.len());
    reveal_strlit("secret.list");
    assert("projects.discover"@.len() != "secret.list"@.len());
    reveal_strlit("secret.read");
    assert("projects.discover"@.len() != "secret.read"@.len());
    reveal_strlit("secret.write");
    assert("projects.discover"@.len() != "secret.write"@.len());
    reveal_strlit("secret.delete");
    assert("projects.discover"@.len() != "secret.delete"@.len());
    reveal_strlit("audit.read");
    assert("projects.discover"@.len() != "audit.read"@.len());
    reveal_strlit("machine.read");
    assert("projects.discover"@.len() != "machine.read"@.len());
    reveal_strlit("machine.read.sensitive");
    assert("projects.discover"@.len() != "machine.read.sensitive"@.len());
    reveal_strlit("machine.create");
    assert("projects.discover"@.len() != "machine.create"@.len());
    reveal_strlit("machine.update");
    assert("projects.discover"@.len() != "machine.update"@.len());
    reveal_strlit("machine.delete");
    assert("projects.discover"@.len() != "machine.delete"@.len());
    reveal_strlit("node.enroll");
    assert("projects.discover"@.len() != "node.enroll"@.len());
    reveal_strlit("node.read");
    assert("projects.discover"@.len() != "node.read"@.len());
    reveal_strlit("node.revoke");
    assert("projects.discover"@.len() != "node.revoke"@.len());
    reveal_strlit("tailscale.read");
    assert("projects.discover"@.len() != "tailscale.read"@.len());
    reveal_strlit("tailscale.config");
    assert("projects.discover"@.len() != "tailscale.config"@.len());
    reveal_strlit("projects.read");
    assert("projects.discover"@.len() != "projects.read"@.len());
    reveal_strlit("projects.create");
    assert("projects.discover"@.len() != "projects.create"@.len());
    reveal_strlit("projects.update");
    assert("projects.discover"@.len() != "projects.update"@.len());
    reveal_strlit("projects.delete");
    assert("projects.discover"@.len() != "projects.delete"@.len());
}

proof fn lemma_id_24()
    ensures
        permission_of_id("projects.git.write"@) == Some(Permission::ProjectsGitWrite),
{
    reveal_strlit("projects.git.write");
    reveal_strlit("system.read");
    assert("projects.git.write"@.len() != "system.read"@.len());
    reveal_strlit("operation.read");
    assert("projects.git.write"@.len() != "operation.read"@.len());
    reveal_strlit("operation.create");
    assert("projects.git.write"@.len() != "operation.create"@.len());
    reveal_strlit("operation.cancel");
    assert("projects.git.write"@.len() != "operation.cancel"@.len());
    reveal_strlit("secret.list");
    assert("projects.git.write"@.len() != "secret.list"@.len());
    reveal_strlit("secret.read");
    assert("projects.git.write"@.len() != "secret.read"@.len());
    reveal_strlit("secret.write");
    assert("projects.git.write"@.len() != "secret.write"@.len());
    reveal_strlit("secret.delete");
    assert("projects.git.write"@.len() != "secret.delete"@.len());
    reveal_strlit("audit.read");
    assert("projects.git.write"@.len() != "audit.read"@.len());
    reveal_strlit("machine.read");
    assert("projects.git.write"@.len() != "machine.read"@.len());
    reveal_strlit("machine.read.sensitive");
    assert("projects.git.write"@.len() != "machine.read.sensitive"@.len());
    reveal_strlit("machine.create");
    assert("projects.git.write"@.len() != "machine.create"@.len());
    reveal_strlit("machine.update");
    assert("projects.git.write"@.len() != "machine.update"@.len());
    reveal_strlit("machine.delete");
    assert("projects.git.write"@.len() != "machine.delete"@.len());
    reveal_strlit("node.enroll");
    assert("projects.git.write"@.len() != "node.enroll"@.len());
    reveal_strlit("node.read");
    assert("projects.git.write"@.len() != "node.read"@.len());
    reveal_strlit("node.revoke");
    assert("projects.git.write"@.len() != "node.revoke"@.len());
    reveal_strlit("tailscale.read");
    assert("projects.git.write"@.len() != "tailscale.read"@.len());
    reveal_strlit("tailscale.config");
    assert("projects.git.write"@.len() != "tailscale.config"@.len());
    reveal_strlit("projects.read");
    assert("projects.git.write"@.len() != "projects.read"@.len());
    reveal_strlit("projects.create");
    assert("projects.git.write"@.len() != "projects.create"@.len());
    reveal_strlit("projects.update");
    assert("projects.git.write"@.len() != "projects.update"@.len());
    reveal_strlit("projects.delete");
    assert("projects.git.write"@.len() != "projects.delete"@.len());
    reveal_strlit("projects.discover");
    assert("projects.git.write"@.len() != "projects.discover"@.len());
}

proof fn lemma_id_25()
    ensures
        permission_of_id("projects.file.write"@) == Some(Permission::ProjectsFileWrite),
{
    reveal_strlit("projects.file.write");
    reveal_strlit("system.read");
    assert("projects.file.write"@.len() != "system.read"@.len());
    reveal_strlit("operation.read");
    assert("projects.file.write"@.len() != "operation.read"@.len());
    reveal_strlit("operation.create");
    assert("projects.file.write"@.len() != "operation.create"@.len());
    reveal_strlit("operation.cancel");
    assert("projects.file.write"@.len() != "operation.cancel"@.len());
    reveal_strlit("secret.list");
    assert("projects.file.write"@.len() != "secret.list"@.len());
    reveal_strlit("secret.read");
    assert("projects.file.write"@.len() != "secret.read"@.len());
    reveal_strlit("secret.write");
    assert("projects.file.write"@.len() != "secret.write"@.len());
    reveal_strlit("secret.delete");
    assert("projects.file.write"@.len() != "secret.delete"@.len());
    reveal_strlit("audit.read");
    assert("projects.file.write"@.len() != "audit.read"@.len());
    reveal_strlit("machine.read");
    assert("projects.file.write"@.len() != "machine.read"@.len());
    reveal_strlit("machine.read.sensitive");
    assert("projects.file.write"@.len() != "machine.read.sensitive"@.len());
    reveal_strlit("machine.create");
    assert("projects.file.write"@.len() != "machine.create"@.len());
    reveal_strlit("machine.update");
    assert("projects.file.write"@.len() != "machine.update"@.len());
    reveal_strlit("machine.delete");
    assert("projects.file.write"@.len() != "machine.delete"@.len());
    reveal_strlit("node.enroll");
    assert("projects.file.write"@.len() != "node.enroll"@.len());
    reveal_strlit("node.read");
    assert("projects.file.write"@.len() != "node.read"@.len());
    reveal_strlit("node.revoke");
    assert("projects.file.write"@.len() != "node.revoke"@.len());
    reveal_strlit("tailscale.read");
    assert("projects.file.write"@.len() != "tailscale.read"@.len());
    reveal_strlit("tailscale.config");
    assert("projects.file.write"@.len() != "tailscale.config"@.len());
    reveal_strlit("projects.read");
    assert("projects.file.write"@.len() != "projects.read"@.len());
    reveal_strlit("projects.create");
    assert("projects.file.write"@.len() != "projects.create"@.len());
    reveal_strlit("projects.update");
    assert("projects.file.write"@.len() != "projects.update"@.len());
    reveal_strlit("projects.delete");
    assert("projects.file.write"@.len() != "projects.delete"@.len());
    reveal_strlit("projects.discover");
    assert("projects.file.write"@.len() != "projects.discover"@.len());
    reveal_strlit("projects.git.write");
    assert("projects.file.write"@.len() != "projects.git.write"@.len());
}

proof fn lemma_id_26()
    ensures
        permission_of_id("skills.read"@) == Some(Permission::SkillsRead),
{
    reveal_strlit("skills.read");
    reveal_strlit("system.read");
    assert("skills.read"@[1] != "system.read"@[1]);
    reveal_strlit("operation.read");
    assert("skills.read"@.len() != "operation.read"@.len());
    reveal_strlit("operation.create");
    assert("skills.read"@.len() != "operation.create"@.len());
    reveal_strlit("operation.cancel");
    assert("skills.read"@.len() != "operation.cancel"@.len());
    reveal_strlit("secret.list");
    assert("skills.read"@[1] != "secret.list"@[1]);
    reveal_strlit("secret.read");
    assert("skills.read"@[1] != "secret.read"@[1]);
    reveal_strlit("secret.write");
    assert("skills.read"@.len() != "secret.write"@.len());
    reveal_strlit("secret.delete");
    assert("skills.read"@.len() != "secret.delete"@.len());
    reveal_strlit("audit.read");
    assert("skills.read"@.len() != "audit.read"@.len());
    reveal_strlit("machine.read");
    assert("skills.read"@.len() != "machine.read"@.len());
    reveal_strlit("machine.read.sensitive");
    assert("skills.read"@.len() != "machine.read.sensitive"@.len());
    reveal_strlit("machine.create");
    assert("skills.read"@.len() != "machine.create"@.len());
    reveal_strlit("machine.update");
    assert("skills.read"@.len() != "machine.update"@.len());
    reveal_strlit("machine.delete");
    assert("skills.read"@.len() != "machine.delete"@.len());
    reveal_strlit("node.enroll");
    assert("skills.read"@[0] != "node.enroll"@[0]);
    reveal_strlit("node.read");
    assert("skills.read"@.len() != "node.read"@.len());
    reveal_strlit("node.revoke");
    assert("skills.read"@[0] != "node.revoke"@[0]);
    reveal_strlit("tailscale.read");
    assert("skills.read"@.len() != "tailscale.read"@.len());
    reveal_strlit("tailscale.config");
    assert("skills.read"@.len() != "tailscale.config"@.len());
    reveal_strlit("projects.read");
    assert("skills.read"@.len() != "projects.read"@.len());
    reveal_strlit("projects.create");
    assert("skills.read"@.len() != "projects.create"@.len());
    reveal_strlit("projects.update");
    assert("skills.read"@.len() != "projects.update"@.len());
    reveal_strlit("projects.delete");
    assert("skills.read"@.len() != "projects.delete"@.len());
    reveal_strlit("projects.discover");
    assert("skills.read"@.len() != "projects.discover"@.len());
    reveal_strlit("projects.git.write");
    assert("skills.read"@.len() != "projects.git.write"@.len());
    reveal_strlit("projects.file.write");
    assert("skills.read"@.len() != "projects.file.write"@.len());
}

proof fn lemma_id_27()
    ensures
        permission_of_id("skills.deploy"@) == Some(Permission::SkillsDeploy),
{
    reveal_strlit("skills.deploy");
    reveal_strlit("system.read");
    assert("skills.deploy"@.len() != "system.read"@.len());
    reveal_strlit("operation.read");
    assert("skills.deploy"@.len() != "operation.read"@.len());
    reveal_strlit("operation.create");
    assert("skills.deploy"@.len() != "operation.create"@.len());
    reveal_strlit("operation.cancel");
    assert("skills.deploy"@.len() != "operation.cancel"@.len());
    reveal_strlit("secret.list");
    assert("skills.deploy"@.len() != "secret.list"@.len());
    reveal_strlit("secret.read");
    assert("skills.deploy"@.len() != "secret.read"@.len());
    reveal_strlit("secret.write");
    assert("skills.deploy"@.len() != "secret.write"@.len());
    reveal_strlit("secret.delete");
    assert("skills.deploy"@[1] != "secret.delete"@[1]);
    reveal_strlit("audit.read");
    assert("skills.deploy"@.len() != "audit.read"@.len());
    reveal_strlit("machine.read");
    assert("skills.deploy"@.len() != "machine.read"@.len());
    reveal_strlit("machine.read.sensitive");
    assert("skills.deploy"@.len() != "machine.read.sensitive"@.len());
    reveal_strlit("machine.create");
    assert("skills.deploy"@.len() != "machine.create"@.len());
    reveal_strlit("machine.update");
    assert("skills.deploy"@.len() != "machine.update"@.len());
    reveal_strlit("machine.delete");
    assert("skills.deploy"@.len() != "machine.delete"@.len());
    reveal_strlit("node.enroll");
    assert("skills.deploy"@.len() != "node.enroll"@.len());
    reveal_strlit("node.read");
    assert("skills.deploy"@.len() != "node.read"@.len());
    reveal_strlit("node.revoke");
    assert("skills.deploy"@.len() != "node.revoke"@.len());
    reveal_strlit("tailscale.read");
    assert("skills.deploy"@.len() != "tailscale.read"@.len());
    reveal_strlit("tailscale.config");
    assert("skills.deploy"@.len() != "tailscale.config"@.len());
    reveal_strlit("projects.read");
    assert("skills.deploy"@[0] != "projects.read"@[0]);
    reveal_strlit("projects.create");
    assert("skills.deploy"@.len() != "projects.create"@.len());
    reveal_strlit("projects.update");
    assert("skills.deploy"@.len() != "projects.update"@.len());
    reveal_strlit("projects.delete");
    assert("skills.deploy"@.len() != "projects.delete"@.len());
    reveal_strlit("projects.discover");
    assert("skills.deploy"@.len() != "projects.discover"@.len());
    reveal_strlit("projects.git.write");
    assert("skills.deploy"@.len() != "projects.git.write"@.len());
    reveal_strlit("projects.file.write");
    assert("skills.deploy"@.len() != "projects.file.write"@.len());
    reveal_strlit("skills.read");
    assert("skills.deploy"@.len() != "skills.read"@.len());
}

proof fn lemma_id_28()
    ensures
        permission_of_id("frogenv.read"@) == Some(Permission::FrogenvRead),
{
    reveal_strlit("frogenv.read");
    reveal_strlit("system.read");
    assert("frogenv.read"@.len() != "system.read"@.len());
    reveal_strlit("operation.read");
    assert("frogenv.read"@.len() != "operation.read"@.len());
    reveal_strlit("operation.create");
    assert("frogenv.read"@.len() != "operation.create"@.len());
    reveal_strlit("operation.cancel");
    assert("frogenv.read"@.len() != "operation.cancel"@.len());
    reveal_strlit("secret.list");
    assert("frogenv.read"@.len() != "secret.list"@.len());
    reveal_strlit("secret.read");
    assert("frogenv.read"@.len() != "secret.read"@.len());
    reveal_strlit("secret.write");
    assert("frogenv.read"@[0] != "secret.write"@[0]);
    reveal_strlit("secret.delete");
    assert("frogenv.read"@.len() != "secret.delete"@.len());
    reveal_strlit("audit.read");
    assert("frogenv.read"@.len() != "audit.read"@.len());
    reveal_strlit("machine.read");
    assert("frogenv.read"@[0] != "machine.read"@[0]);
    reveal_strlit("machine.read.sensitive");
    assert("frogenv.read"@.len() != "machine.read.sensitive"@.len());
    reveal_strlit("machine.create");
    assert("frogenv.read"@.len() != "machine.create"@.len());
    reveal_strlit("machine.update");
    assert("frogenv.read"@.len() != "machine.update"@.len());
    reveal_strlit("machine.delete");
    assert("frogenv.read"@.len() != "machine.delete"@.len());
    reveal_strlit("node.enroll");
    assert("frogenv.read"@.len() != "node.enroll"@.len());
    reveal_strlit("node.read");
    assert("frogenv.read"@.len() != "node.read"@.len());
    reveal_strlit("node.revoke");
    assert("frogenv.read"@.len() != "node.revoke"@.len());
    reveal_strlit("tailscale.read");
    assert("frogenv.read"@.len() != "tailscale.read"@.len());
    reveal_strlit("tailscale.config");
    assert("frogenv.read"@.len() != "tailscale.config"@.len());
    reveal_strlit("projects.read");
    assert("frogenv.read"@.len() != "projects.read"@.len());
    reveal_strlit("projects.create");
    assert("frogenv.read"@.len() != "projects.create"@.len());
    reveal_strlit("projects.update");
    assert("frogenv.read"@.len() != "projects.update"@.len());
    reveal_strlit("projects.delete");
    assert("frogenv.read"@.len() != "projects.delete"@.len());
    reveal_strlit("projects.discover");
    assert("frogenv.read"@.len() != "projects.discover"@.len());
    reveal_strlit("projects.git.write");
    assert("frogenv.read"@.len() != "projects.git.write"@.len());
    reveal_strlit("projects.file.write");
    assert("frogenv.read"@.len() != "projects.file.write"@.len());
    reveal_strlit("skills.read");
    assert("frogenv.read"@.len() != "skills.read"@.len());
    reveal_strlit("skills.deploy");
    assert("frogenv.read"@.len() != "skills.deploy"@.len());
}

proof fn lemma_id_29()
    ensures
        permission_of_id("frogenv.operate"@) == Some(Permission::FrogenvOperate),
{
    reveal_strlit("frogenv.operate");
    reveal_strlit("system.read");
    assert("frogenv.operate"@.len() != "system.read"@.len());
    reveal_strlit("operation.read");
    assert("frogenv.operate"@.len() != "operation.read"@.len());
    reveal_strlit("operation.create");
    assert("frogenv.operate"@.len() != "operation.create"@.len());
    reveal_strlit("operation.cancel");
    assert("frogenv.operate"@.len() != "operation.cancel"@.len());
    reveal_strlit("secret.list");
    assert("frogenv.operate"@.len() != "secret.list"@.len());
    reveal_strlit("secret.read");
    assert("frogenv.operate"@.len() != "secret.read"@.len());
    reveal_strlit("secret.write");
    assert("frogenv.operate"@.len() != "secret.write"@.len());
    reveal_strlit("secret.delete");
    assert("frogenv.operate"@.len() != "secret.delete"@.len());
    reveal_strlit("audit.read");
    assert("frogenv.operate"@.len() != "audit.read"@.len());
    reveal_strlit("machine.read");
    assert("frogenv.operate"@.len() != "machine.read"@.len());
    reveal_strlit("machine.read.sensitive");
    assert("frogenv.operate"@.len() != "machine.read.sensitive"@.len());
    reveal_strlit("machine.create");
    assert("frogenv.operate"@.len() != "machine.create"@.len());
    reveal_strlit("machine.update");
    assert("frogenv.operate"@.len() != "machine.update"@.len());
    reveal_strlit("machine.delete");
    assert("frogenv.operate"@.len() != "machine.delete"@.len());
    reveal_strlit("node.enroll");
    assert("frogenv.operate"@.len() != "node.enroll"@.len());
    reveal_strlit("node.read");
    assert("frogenv.operate"@.len() != "node.read"@.len());
    reveal_strlit("node.revoke");
    assert("frogenv.operate"@.len() != "node.revoke"@.len());
    reveal_strlit("tailscale.read");
    assert("frogenv.operate"@.len() != "tailscale.read"@.len());
    reveal_strlit("tailscale.config");
    assert("frogenv.operate"@.len() != "tailscale.config"@.len());
    reveal_strlit("projects.read");
    assert("frogenv.operate"@.len() != "projects.read"@.len());
    reveal_strlit("projects.create");
    assert("frogenv.operate"@[0] != "projects.create"@[0]);
    reveal_strlit("projects.update");
    assert("frogenv.operate"@[0] != "projects.update"@[0]);
    reveal_strlit("projects.delete");
    assert("frogenv.operate"@[0] != "projects.delete"@[0]);
    reveal_strlit("projects.discover");
    assert("frogenv.operate"@.len() != "projects.discover"@.len());
    reveal_strlit("projects.git.write");
    assert("frogenv.operate"@.len() != "projects.git.write"@.len());
    reveal_strlit("projects.file.write");
    assert("frogenv.operate"@.len() != "projects.file.write"@.len());
    reveal_strlit("skills.read");
    assert("frogenv.operate"@.len() != "skills.read"@.len());
    reveal_strlit("skills.deploy");
    assert("frogenv.operate"@.len() != "skills.deploy"@.len());
    reveal_strlit("frogenv.read");
    assert("frogenv.operate"@.len() != "frogenv.read"@.len());
}

proof fn lemma_id_30()
    ensures
        permission_of_id("tools.read"@) == Some(Permission::ToolsRead),
{
    reveal_strlit("tools.read");
    reveal_strlit("system.read");
    assert("tools.read"@.len() != "system.read"@.len());
    reveal_strlit("operation.read");
    assert("tools.read"@.len() != "operation.read"@.len());
    reveal_strlit("operation.create");
    assert("tools.read"@.len() != "operation.create"@.len());
    reveal_strlit("operation.cancel");
    assert("tools.read"@.len() != "operation.cancel"@.len());
    reveal_strlit("secret.list");
    assert("tools.read"@.len() != "secret.list"@.len());
    reveal_strlit("secret.read");
    assert("tools.read"@.len() != "secret.read"@.len());
    reveal_strlit("secret.write");
    assert("tools.read"@.len() != "secret.write"@.len());
    reveal_strlit("secret.delete");
    assert("tools.read"@.len() != "secret.delete"@.len());
    reveal_strlit("audit.read");
    assert("tools.read"@[0] != "audit.read"@[0]);
    reveal_strlit("machine.read");
    assert("tools.read"@.len() != "machine.read"@.len());
    reveal_strlit("machine.read.sensitive");
    assert("tools.read"@.len() != "machine.read.sensitive"@.len());
    reveal_strlit("machine.create");
    assert("tools.read"@.len() != "machine.create"@.len());
    reveal_strlit("machine.update");
    assert("tools.read"@.len() != "machine.update"@.len());
    reveal_strlit("machine.delete");
    assert("tools.read"@.len() != "machine.delete"@.len());
    reveal_strlit("node.enroll");
    assert("tools.read"@.len() != "node.enroll"@.len());
    reveal_strlit("node.read");
    assert("tools.read"@.len() != "node.read"@.len());
    reveal_strlit("node.revoke");
    assert("tools.read"@.len() != "node.revoke"@.len());
    reveal_strlit("tailscale.read");
    assert("tools.read"@.len() != "tailscale.read"@.len());
    reveal_strlit("tailscale.config");
    assert("tools.read"@.len() != "tailscale.config"@.len());
    reveal_strlit("projects.read");
    assert("tools.read"@.len() != "projects.read"@.len());
    reveal_strlit("projects.create");
    assert("tools.read"@.len() != "projects.create"@.len());
    reveal_strlit("projects.update");
    assert("tools.read"@.len() != "projects.update"@.len());
    reveal_strlit("projects.delete");
    assert("tools.read"@.len() != "projects.delete"@.len());
    reveal_strlit("projects.discover");
    assert("tools.read"@.len() != "projects.discover"@.len());
    reveal_strlit("projects.git.write");
    assert("tools.read"@.len() != "projects.git.write"@.len());
    reveal_strlit("projects.file.write");
    assert("tools.read"@.len() != "projects.file.write"@.len());
    reveal_strlit("skills.read");
    assert("tools.read"@.len() != "skills.read"@.len());
    reveal_strlit("skills.deploy");
    assert("tools.read"@.len() != "skills.deploy"@.len());
    reveal_strlit("frogenv.read");
    assert("tools.read"@.len() != "frogenv.read"@.len());
    reveal_strlit("frogenv.operate");
    assert("tools.read"@.len() != "frogenv.operate"@.len());
}

proof fn lemma_id_31()
    ensures
        permission_of_id("mise.operate"@) == Some(Permission::MiseOperate),
{
    reveal_strlit("mise.operate");
    reveal_strlit("system.read");
    assert("mise.operate"@.len() != "system.read"@.len());
    reveal_strlit("operation.read");
    assert("mise.operate"@.len() != "operation.read"@.len());
    reveal_strlit("operation.create");
    assert("mise.operate"@.len() != "operation.create"@.len());
    reveal_strlit("operation.cancel");
    assert("mise.operate"@.len() != "operation.cancel"@.len());
    reveal_strlit("secret.list");
    assert("mise.operate"@.len() != "secret.list"@.len());
    reveal_strlit("secret.read");
    assert("mise.operate"@.len() != "secret.read"@.len());
    reveal_strlit("secret.write");
    assert("mise.operate"@[0] != "secret.write"@[0]);
    reveal_strlit("secret.delete");
    assert("mise.operate"@.len() != "secret.delete"@.len());
    reveal_strlit("audit.read");
    assert("mise.operate"@.len() != "audit.read"@.len());
    reveal_strlit("machine.read");
    assert("mise.operate"@[1] != "machine.read"@[1]);
    reveal_strlit("machine.read.sensitive");
    assert("mise.operate"@.len() != "machine.read.sensitive"@.len());
    reveal_strlit("machine.create");
    assert("mise.operate"@.len() != "machine.create"@.len());
    reveal_strlit("machine.update");
    assert("mise.operate"@.len() != "machine.update"@.len());
    reveal_strlit("machine.delete");
    assert("mise.operate"@.len() != "machine.delete"@.len());
    reveal_strlit("node.enroll");
    assert("mise.operate"@.len() != "node.enroll"@.len());
    reveal_strlit("node.read");
    assert("mise.operate"@.len() != "node.read"@.len());
    reveal_strlit("node.revoke");
    assert("mise.operate"@.len() != "node.revoke"@.len());
    reveal_strlit("tailscale.read");
    assert("mise.operate"@.len() != "tailscale.read"@.len());
    reveal_strlit("tailscale.config");
    assert("mise.operate"@.len() != "tailscale.config"@.len());
    reveal_strlit("projects.read");
    assert("mise.operate"@.len() != "projects.read"@.len());
    reveal_strlit("projects.create");
    assert("mise.operate"@.len() != "projects.create"@.len());
    reveal_strlit("projects.update");
    assert("mise.operate"@.len() != "projects.update"@.len());
    reveal_strlit("projects.delete");
    assert("mise.operate"@.len() != "projects.delete"@.len());
    reveal_strlit("projects.discover");
    assert("mise.operate"@.len() != "projects.discover"@.len());
    reveal_strlit("projects.git.write");
    assert("mise.operate"@.len() != "projects.git.write"@.len());
    reveal_strlit("projects.file.write");
    assert("mise.operate"@.len() != "projects.file.write"@.len());
    reveal_strlit("skills.read");
    assert("mise.operate"@.len() != "skills.read"@.len());
    reveal_strlit("skills.deploy");
    assert("mise.operate"@.len() != "skills.deploy"@.len());
    reveal_strlit("frogenv.read");
    assert("mise.operate"@[0] != "frogenv.read"@[0]);
    reveal_strlit("frogenv.operate");
    assert("mise.operate"@.len() != "frogenv.operate"@.len());
    reveal_strlit("tools.read");
    assert("mise.operate"@.len() != "tools.read"@.len());
}

proof fn lemma_id_32()
    ensures
        permission_of_id("projects.ready"@) == Some(Permission::ProjectsReady),
{
    reveal_strlit("projects.ready");
    reveal_strlit("system.read");
    assert("projects.ready"@.len() != "system.read"@.len());
    reveal_strlit("operation.read");
    assert("projects.ready"@[0] != "operation.read"@[0]);
    reveal_strlit("operation.create");
    assert("projects.ready"@.len() != "operation.create"@.len());
    reveal_strlit("operation.cancel");
    assert("projects.ready"@.len() != "operation.cancel"@.len());
    reveal_strlit("secret.list");
    assert("projects.ready"@.len() != "secret.list"@.len());
    reveal_strlit("secret.read");
    assert("projects.ready"@.len() != "secret.read"@.len());
    reveal_strlit("secret.write");
    assert("projects.ready"@.len() != "secret.write"@.len());
    reveal_strlit("secret.delete");
    assert("projects.ready"@.len() != "secret.delete"@.len());
    reveal_strlit("audit.read");
    assert("projects.ready"@.len() != "audit.read"@.len());
    reveal_strlit("machine.read");
    assert("projects.ready"@.len() != "machine.read"@.len());
    reveal_strlit("machine.read.sensitive");
    assert("projects.ready"@.len() != "machine.read.sensitive"@.len());
    reveal_strlit("machine.create");
    assert("projects.ready"@[0] != "machine.create"@[0]);
    reveal_strlit("machine.update");
    assert("projects.ready"@[0] != "machine.update"@[0]);
    reveal_strlit("machine.delete");
    assert("projects.ready"@[0] != "machine.delete"@[0]);
    reveal_strlit("node.enroll");
    assert("projects.ready"@.len() != "node.enroll"@.len());
    reveal_strlit("node.read");
    assert("projects.ready"@.len() != "node.read"@.len());
    reveal_strlit("node.revoke");
    assert("projects.ready"@.len() != "node.revoke"@.len());
    reveal_strlit("tailscale.read");
    assert("projects.ready"@[0] != "tailscale.read"@[0]);
    reveal_strlit("tailscale.config");
    assert("projects.ready"@.len() != "tailscale.config"@.len());
    reveal_strlit("projects.read");
    assert("projects.ready"@.len() != "projects.read"@.len());
    reveal_strlit("projects.create");
    assert("projects.ready"@.len() != "projects.create"@.len());
    reveal_strlit("projects.update");
    assert("projects.ready"@.len() != "projects.update"@.len());
    reveal_strlit("projects.delete");
    assert("projects.ready"@.len() != "projects.delete"@.len());
    reveal_strlit("projects.discover");
    assert("projects.ready"@.len() != "projects.discover"@.len());
    reveal_strlit("projects.git.write");
    assert("projects.ready"@.len() != "projects.git.write"@.len());
    reveal_strlit("projects.file.write");
    assert("projects.ready"@.len() != "projects.file.write"@.len());
    reveal_strlit("skills.read");
    assert("projects.ready"@.len() != "skills.read"@.len());
    reveal_strlit("skills.deploy");
    assert("projects.ready"@.len() != "skills.deploy"@.len());
    reveal_strlit("frogenv.read");
    assert("projects.ready"@.len() != "frogenv.read"@.len());
    reveal_strlit("frogenv.operate");
    assert("projects.ready"@.len() != "frogenv.operate"@.len());
    reveal_strlit("tools.read");
    assert("projects.ready"@.len() != "tools.read"@.len());
    reveal_strlit("mise.operate");
    assert("projects.ready"@.len() != "mise.operate"@.len());
}

proof fn lemma_id_33()
    ensures
        permission_of_id("skills.modify"@) == Some(Permission::SkillsModify),
{
    reveal_strlit("skills.modify");
    reveal_strlit("system.read");
    assert("skills.modify"@.len() != "system.read"@.len());
    reveal_strlit("operation.read");
    assert("skills.modify"@.len() != "operation.read"@.len());
    reveal_strlit("operation.create");
    assert("skills.modify"@.len() != "operation.create"@.len());
    reveal_strlit("operation.cancel");
    assert("skills.modify"@.len() != "operation.cancel"@.len());
    reveal_strlit("secret.list");
    assert("skills.modify"@.len() != "secret.list"@.len());
    reveal_strlit("secret.read");
    assert("skills.modify"@.len() != "secret.read"@.len());
    reveal_strlit("secret.write");
    assert("skills.modify"@.len() != "secret.write"@.len());
    reveal_strlit("secret.delete");
    assert("skills.modify"@[1] != "secret.delete"@[1]);
    reveal_strlit("audit.read");
    assert("skills.modify"@.len() != "audit.read"@.len());
    reveal_strlit("machine.read");
    assert("skills.modify"@.len() != "machine.read"@.len());
    reveal_strlit("machine.read.sensitive");
    assert("skills.modify"@.len() != "machine.read.sensitive"@.len());
    reveal_strlit("machine.create");
    assert("skills.modify"@.len() != "machine.create"@.len());
    reveal_strlit("machine.update");
    assert("skills.modify"@.len() != "machine.update"@.len());
    reveal_strlit("machine.delete");
    assert("skills.modify"@.len() != "machine.delete"@.len());
    reveal_strlit("node.enroll");
    assert("skills.modify"@.len() != "node.enroll"@.len());
    reveal_strlit("node.read");
    assert("skills.modify"@.len() != "node.read"@.len());
    reveal_strlit("node.revoke");
    assert("skills.modify"@.len() != "node.revoke"@.len());
    reveal_strlit("tailscale.read");
    assert("skills.modify"@.len() != "tailscale.read"@.len());
    reveal_strlit("tailscale.config");
    assert("skills.modify"@.len() != "tailscale.config"@.len());
    reveal_strlit("projects.read");
    assert("skills.modify"@[0] != "projects.read"@[0]);
    reveal_strlit("projects.create");
    assert("skills.modify"@.len() != "projects.create"@.len());
    reveal_strlit("projects.update");
    assert("skills.modify"@.len() != "projects.update"@.len());
    reveal_strlit("projects.delete");
    assert("skills.modify"@.len() != "projects.delete"@.len());
    reveal_strlit("projects.discover");
    assert("skills.modify"@.len() != "projects.discover"@.len());
    reveal_strlit("projects.git.write");
    assert("skills.modify"@.len() != "projects.git.write"@.len());
    reveal_strlit("projects.file.write");
    assert("skills.modify"@.len() != "projects.file.write"@.len());
    reveal_strlit("skills.read");
    assert("skills.modify"@.len() != "skills.read"@.len());
    reveal_strlit("skills.deploy");
    assert("skills.modify"@[7] != "skills.deploy"@[7]);
    reveal_strlit("frogenv.read");
    assert("skills.modify"@.len() != "frogenv.read"@.len());
    reveal_strlit("frogenv.operate");
    assert("skills.modify"@.len() != "frogenv.operate"@.len());
    reveal_strlit("tools.read");
    assert("skills.modify"@.len() != "tools.read"@.len());
    reveal_strlit("mise.operate");
    assert("skills.modify"@.len() != "mise.operate"@.len());
    reveal_strlit("projects.ready");
    assert("skills.modify"@.len() != "projects.ready"@.len());
}

proof fn lemma_id_34()
    ensures
        permission_of_id("events.read"@) == Some(Permission::EventsRead),
{
    reveal_strlit("events.read");
    reveal_strlit("system.read");
    assert("events.read"@[0] != "system.read"@[0]);
    reveal_strlit("operation.read");
    assert("events.read"@.len() != "operation.read"@.len());
    reveal_strlit("operation.create");
    assert("events.read"@.len() != "operation.create"@.len());
    reveal_strlit("operation.cancel");
    assert("events.read"@.len() != "operation.cancel"@.len());
    reveal_strlit("secret.list");
    assert("events.read"@[0] != "secret.list"@[0]);
    reveal_strlit("secret.read");
    assert("events.read"@[0] != "secret.read"@[0]);
    reveal_strlit("secret.write");
    assert("events.read"@.len() != "secret.write"@.len());
    reveal_strlit("secret.delete");
    assert("events.read"@.len() != "secret.delete"@.len());
    reveal_strlit("audit.read");
    assert("events.read"@.len() != "audit.read"@.len());
    reveal_strlit("machine.read");
    assert("events.read"@.len() != "machine.read"@.len());
    reveal_strlit("machine.read.sensitive");
    assert("events.read"@.len() != "machine.read.sensitive"@.len());
    reveal_strlit("machine.create");
    assert("events.read"@.len() != "machine.create"@.len());
    reveal_strlit("machine.update");
    assert("events.read"@.len() != "machine.update"@.len());
    reveal_strlit("machine.delete");
    assert("events.read"@.len() != "machine.delete"@.len());
    reveal_strlit("node.enroll");
    assert("events.read"@[0] != "node.enroll"@[0]);
    reveal_strlit("node.read");
    assert("events.read"@.len() != "node.read"@.len());
    reveal_strlit("node.revoke");
    assert("events.read"@[0] != "node.revoke"@[0]);
    reveal_strlit("tailscale.read");
    assert("events.read"@.len() != "tailscale.read"@.len());
    reveal_strlit("tailscale.config");
    assert("events.read"@.len() != "tailscale.config"@.len());
    reveal_strlit("projects.read");
    assert("events.read"@.len() != "projects.read"@.len());
    reveal_strlit("projects.create");
    assert("events.read"@.len() != "projects.create"@.len());
    reveal_strlit("projects.update");
    assert("events.read"@.len() != "projects.update"@.len());
    reveal_strlit("projects.delete");
    assert("events.read"@.len() != "projects.delete"@.len());
    reveal_strlit("projects.discover");
    assert("events.read"@.len() != "projects.discover"@.len());
    reveal_strlit("projects.git.write");
    assert("events.read"@.len() != "projects.git.write"@.len());
    reveal_strlit("projects.file.write");
    assert("events.read"@.len() != "projects.file.write"@.len());
    reveal_strlit("skills.read");
    assert("events.read"@[0] != "skills.read"@[0]);
    reveal_strlit("skills.deploy");
    assert("events.read"@.len() != "skills.deploy"@.len());
    reveal_strlit("frogenv.read");
    assert("events.read"@.len() != "frogenv.read"@.len());
    reveal_strlit("frogenv.operate");
    assert("events.read"@.len() != "frogenv.operate"@.len());
    reveal_strlit("tools.read");
    assert("events.read"@.len() != "tools.read"@.len());
    reveal_strlit("mise.operate");
    assert("events.read"@.len() != "mise.operate"@.len());
    reveal_strlit("projects.ready");
    assert("events.read"@.len() != "projects.ready"@.len());
    reveal_strlit("skills.modify");
    assert("events.read"@.len() != "skills.modify"@.len());
}

proof fn lemma_id_35()
    ensures
        permission_of_id("source.fetch"@) == Some(Permission::SourceFetch),
{
    reveal_strlit("source.fetch");
    reveal_strlit("system.read");
    assert("source.fetch"@.len() != "system.read"@.len());
    reveal_strlit("operation.read");
    assert("source.fetch"@.len() != "operation.read"@.len());
    reveal_strlit("operation.create");
    assert("source.fetch"@.len() != "operation.create"@.len());
    reveal_strlit("operation.cancel");
    assert("source.fetch"@.len() != "operation.cancel"@.len());
    reveal_strlit("secret.list");
    assert("source.fetch"@.len() != "secret.list"@.len());
    reveal_strlit("secret.read");
    assert("source.fetch"@.len() != "secret.read"@.len());
    reveal_strlit("secret.write");
    assert("source.fetch"@[1] != "secret.write"@[1]);
    reveal_strlit("secret.delete");
    assert("source.fetch"@.len() != "secret.delete"@.len());
    reveal_strlit("audit.read");
    assert("source.fetch"@.len() != "audit.read"@.len());
    reveal_strlit("machine.read");
    assert("source.fetch"@[0] != "machine.read"@[0]);
    reveal_strlit("machine.read.sensitive");
    assert("source.fetch"@.len() != "machine.read.sensitive"@.len());
    reveal_strlit("machine.create");
    assert("source.fetch"@.len() != "machine.create"@.len());
    reveal_strlit("machine.update");
    assert("source.fetch"@.len() != "machine.update"@.len());
    reveal_strlit("machine.delete");
    assert("source.fetch"@.len() != "machine.delete"@.len());
    reveal_strlit("node.enroll");
    assert("source.fetch"@.len() != "node.enroll"@.len());
    reveal_strlit("node.read");
    assert("source.fetch"@.len() != "node.read"@.len());
    reveal_strlit("node.revoke");
    assert("source.fetch"@.len() != "node.revoke"@.len());
    reveal_strlit("tailscale.read");
    assert("source.fetch"@.len() != "tailscale.read"@.len());
    reveal_strlit("tailscale.config");
    assert("source.fetch"@.len() != "tailscale.config"@.len());
    reveal_strlit("projects.read");
    assert("source.fetch"@.len() != "projects.read"@.len());
    reveal_strlit("projects.create");
    assert("source.fetch"@.len() != "projects.create"@.len());
    reveal_strlit("projects.update");
    assert("source.fetch"@.len() != "projects.update"@.len());
    reveal_strlit("projects.delete");
    assert("source.fetch"@.len() != "projects.delete"@.len());
    reveal_strlit("projects.discover");
    assert("source.fetch"@.len() != "projects.discover"@.len());
    reveal_strlit("projects.git.write");
    assert("source.fetch"@.len() != "projects.git.write"@.len());
    reveal_strlit("projects.file.write");
    assert("source.fetch"@.len() != "projects.file.write"@.len());
    reveal_strlit("skills.read");
    assert("source.fetch"@.len() != "skills.read"@.len());
    reveal_strlit("skills.deploy");
    assert("source.fetch"@.len() != "skills.deploy"@.len());
    reveal_strlit("frogenv.read");
    assert("source.fetch"@[0] != "frogenv.read"@[0]);
    reveal_strlit("frogenv.operate");
    assert("source.fetch"@.len() != "frogenv.operate"@.len());
    reveal_strlit("tools.read");
    assert("source.fetch"@.len() != "tools.read"@.len());
    reveal_strlit("mise.operate");
    assert("source.fetch"@[0] != "mise.operate"@[0]);
    reveal_strlit("projects.ready");
    assert("source.fetch"@.len() != "projects.ready"@.len());
    reveal_strlit("skills.modify");
    assert("source.fetch"@.len() != "skills.modify"@.len());
    reveal_strlit("events.read");
    assert("source.fetch"@.len() != "events.read"@.len());
}

proof fn lemma_id_36()
    ensures
        permission_of_id("source.activate"@) == Some(Permission::SourceActivate),
{
    reveal_strlit("source.activate");
    reveal_strlit("system.read");
    assert("source.activate"@.len() != "system.read"@.len());
    reveal_strlit("operation.read");
    assert("source.activate"@.len() != "operation.read"@.len());
    reveal_strlit("operation.create");
    assert("source.activate"@.len() != "operation.create"@.len());
    reveal_strlit("operation.cancel");
    assert("source.activate"@.len() != "operation.cancel"@.len());
    reveal_strlit("secret.list");
    assert("source.activate"@.len() != "secret.list"@.len());
    reveal_strlit("secret.read");
    assert("source.activate"@.len() != "secret.read"@.len());
    reveal_strlit("secret.write");
    assert("source.activate"@.len() != "secret.write"@.len());
    reveal_strlit("secret.delete");
    assert("source.activate"@.len() != "secret.delete"@.len());
    reveal_strlit("audit.read");
    assert("source.activate"@.len() != "audit.read"@.len());
    reveal_strlit("machine.read");
    assert("source.activate"@.len() != "machine.read"@.len());
    reveal_strlit("machine.read.sensitive");
    assert("source.activate"@.len() != "machine.read.sensitive"@.len());
    reveal_strlit("machine.create");
    assert("source.activate"@.len() != "machine.create"@.len());
    reveal_strlit("machine.update");
    assert("source.activate"@.len() != "machine.update"@.len());
    reveal_strlit("machine.delete");
    assert("source.activate"@.len() != "machine.delete"@.len());
    reveal_strlit("node.enroll");
    assert("source.activate"@.len() != "node.enroll"@.len());
    reveal_strlit("node.read");
    assert("source.activate"@.len() != "node.read"@.len());
    reveal_strlit("node.revoke");
    assert("source.activate"@.len() != "node.revoke"@.len());
    reveal_strlit("tailscale.read");
    assert("source.activate"@.len() != "tailscale.read"@.len());
    reveal_strlit("tailscale.config");
    assert("source.activate"@.len() != "tailscale.config"@.len());
    reveal_strlit("projects.read");
    assert("source.activate"@.len() != "projects.read"@.len());
    reveal_strlit("projects.create");
    assert("source.activate"@[0] != "projects.create"@[0]);
    reveal_strlit("projects.update");
    assert("source.activate"@[0] != "projects.update"@[0]);
    reveal_strlit("projects.delete");
    assert("source.activate"@[0] != "projects.delete"@[0]);
    reveal_strlit("projects.discover");
    assert("source.activate"@.len() != "projects.discover"@.len());
    reveal_strlit("projects.git.write");
    assert("source.activate"@.len() != "projects.git.write"@.len());
    reveal_strlit("projects.file.write");
    assert("source.activate"@.len() != "projects.file.write"@.len());
    reveal_strlit("skills.read");
    assert("source.activate"@.len() != "skills.read"@.len());
    reveal_strlit("skills.deploy");
    assert("source.activate"@.len() != "skills.deploy"@.len());
    reveal_strlit("frogenv.read");
    assert("source.activate"@.len() != "frogenv.read"@.len());
    reveal_strlit("frogenv.operate");
    assert("source.activate"@[0] != "frogenv.operate"@[0]);
    reveal_strlit("tools.read");
    assert("source.activate"@.len() != "tools.read"@.len());
    reveal_strlit("mise.operate");
    assert("source.activate"@.len() != "mise.operate"@.len());
    reveal_strlit("projects.ready");
    assert("source.activate"@.len() != "projects.ready"@.len());
    reveal_strlit("skills.modify");
    assert("source.activate"@.len() != "skills.modify"@.len());
    reveal_strlit("events.read");
    assert("source.activate"@.len() != "events.read"@.len());
    reveal_strlit("source.fetch");
    assert("source.activate"@.len() != "source.fetch"@.len());
}

proof fn lemma_id_37()
    ensures
        permission_of_id("proxmox.read"@) == Some(Permission::ProxmoxRead),
{
    reveal_strlit("proxmox.read");
    reveal_strlit("system.read");
    assert("proxmox.read"@.len() != "system.read"@.len());
    reveal_strlit("operation.read");
    assert("proxmox.read"@.len() != "operation.read"@.len());
    reveal_strlit("operation.create");
    assert("proxmox.read"@.len() != "operation.create"@.len());
    reveal_strlit("operation.cancel");
    assert("proxmox.read"@.len() != "operation.cancel"@.len());
    reveal_strlit("secret.list");
    assert("proxmox.read"@.len() != "secret.list"@.len());
    reveal_strlit("secret.read");
    assert("proxmox.read"@.len() != "secret.read"@.len());
    reveal_strlit("secret.write");
    assert("proxmox.read"@[0] != "secret.write"@[0]);
    reveal_strlit("secret.delete");
    assert("proxmox.read"@.len() != "secret.delete"@.len());
    reveal_strlit("audit.read");
    assert("proxmox.read"@.len() != "audit.read"@.len());
    reveal_strlit("machine.read");
    assert("proxmox.read"@[0] != "machine.read"@[0]);
    reveal_strlit("machine.read.sensitive");
    assert("proxmox.read"@.len() != "machine.read.sensitive"@.len());
    reveal_strlit("machine.create");
    assert("proxmox.read"@.len() != "machine.create"@.len());
    reveal_strlit("machine.update");
    assert("proxmox.read"@.len() != "machine.update"@.len());
    reveal_strlit("machine.delete");
    assert("proxmox.read"@.len() != "machine.delete"@.len());
    reveal_strlit("node.enroll");
    assert("proxmox.read"@.len() != "node.enroll"@.len());
    reveal_strlit("node.read");
    assert("proxmox.read"@.len() != "node.read"@.len());
    reveal_strlit("node.revoke");
    assert("proxmox.read"@.len() != "node.revoke"@.len());
    reveal_strlit("tailscale.read");
    assert("proxmox.read"@.len() != "tailscale.read"@.len());
    reveal_strlit("tailscale.config");
    assert("proxmox.read"@.len() != "tailscale.config"@.len());
    reveal_strlit("projects.read");
    assert("proxmox.read"@.len() != "projects.read"@.len());
    reveal_strlit("projects.create");
    assert("proxmox.read"@.len() != "projects.create"@.len());
    reveal_strlit("projects.update");
    assert("proxmox.read"@.len() != "projects.update"@.len());
    reveal_strlit("projects.delete");
    assert("proxmox.read"@.len() != "projects.delete"@.len());
    reveal_strlit("projects.discover");
    assert("proxmox.read"@.len() != "projects.discover"@.len());
    reveal_strlit("projects.git.write");
    assert("proxmox.read"@.len() != "projects.git.write"@.len());
    reveal_strlit("projects.file.write");
    assert("proxmox.read"@.len() != "projects.file.write"@.len());
    reveal_strlit("skills.read");
    assert("proxmox.read"@.len() != "skills.read"@.len());
    reveal_strlit("skills.deploy");
    assert("proxmox.read"@.len() != "skills.deploy"@.len());
    reveal_strlit("frogenv.read");
    assert("proxmox.read"@[0] != "frogenv.read"@[0]);
    reveal_strlit("frogenv.operate");
    assert("proxmox.read"@.len() != "frogenv.operate"@.len());
    reveal_strlit("tools.read");
    assert("proxmox.read"@.len() != "tools.read"@.len());
    reveal_strlit("mise.operate");
    assert("proxmox.read"@[0] != "mise.operate"@[0]);
    reveal_strlit("projects.ready");
    assert("proxmox.read"@.len() != "projects.ready"@.len());
    reveal_strlit("skills.modify");
    assert("proxmox.read"@.len() != "skills.modify"@.len());
    reveal_strlit("events.read");
    assert("proxmox.read"@.len() != "events.read"@.len());
    reveal_strlit("source.fetch");
    assert("proxmox.read"@[0] != "source.fetch"@[0]);
    reveal_strlit("source.activate");
    assert("proxmox.read"@.len() != "source.activate"@.len());
}

proof fn lemma_id_38()
    ensures
        permission_of_id("proxmox.config"@) == Some(Permission::ProxmoxConfig),
{
    reveal_strlit("proxmox.config");
    reveal_strlit("system.read");
    assert("proxmox.config"@.len() != "system.read"@.len());
    reveal_strlit("operation.read");
    assert("proxmox.config"@[0] != "operation.read"@[0]);
    reveal_strlit("operation.create");
    assert("proxmox.config"@.len() != "operation.create"@.len());
    reveal_strlit("operation.cancel");
    assert("proxmox.config"@.len() != "operation.cancel"@.len());
    reveal_strlit("secret.list");
    assert("proxmox.config"@.len() != "secret.list"@.len());
    reveal_strlit("secret.read");
    assert("proxmox.config"@.len() != "secret.read"@.len());
    reveal_strlit("secret.write");
    assert("proxmox.config"@.len() != "secret.write"@.len());
    reveal_strlit("secret.delete");
    assert("proxmox.config"@.len() != "secret.delete"@.len());
    reveal_strlit("audit.read");
    assert("proxmox.config"@.len() != "audit.read"@.len());
    reveal_strlit("machine.read");
    assert("proxmox.config"@.len() != "machine.read"@.len());
    reveal_strlit("machine.read.sensitive");
    assert("proxmox.config"@.len() != "machine.read.sensitive"@.len());
    reveal_strlit("machine.create");
    assert("proxmox.config"@[0] != "machine.create"@[0]);
    reveal_strlit("machine.update");
    assert("proxmox.config"@[0] != "machine.update"@[0]);
    reveal_strlit("machine.delete");
    assert("proxmox.config"@[0] != "machine.delete"@[0]);
    reveal_strlit("node.enroll");
    assert("proxmox.config"@.len() != "node.enroll"@.len());
    reveal_strlit("node.read");
    assert("proxmox.config"@.len() != "node.read"@.len());
    reveal_strlit("node.revoke");
    assert("proxmox.config"@.len() != "node.revoke"@.len());
    reveal_strlit("tailscale.read");
    assert("proxmox.config"@[0] != "tailscale.read"@[0]);
    reveal_strlit("tailscale.config");
    assert("proxmox.config"@.len() != "tailscale.config"@.len());
    reveal_strlit("projects.read");
    assert("proxmox.config"@.len() != "projects.read"@.len());
    reveal_strlit("projects.create");
    assert("proxmox.config"@.len() != "projects.create"@.len());
    reveal_strlit("projects.update");
    assert("proxmox.config"@.len() != "projects.update"@.len());
    reveal_strlit("projects.delete");
    assert("proxmox.config"@.len() != "projects.delete"@.len());
    reveal_strlit("projects.discover");
    assert("proxmox.config"@.len() != "projects.discover"@.len());
    reveal_strlit("projects.git.write");
    assert("proxmox.config"@.len() != "projects.git.write"@.len());
    reveal_strlit("projects.file.write");
    assert("proxmox.config"@.len() != "projects.file.write"@.len());
    reveal_strlit("skills.read");
    assert("proxmox.config"@.len() != "skills.read"@.len());
    reveal_strlit("skills.deploy");
    assert("proxmox.config"@.len() != "skills.deploy"@.len());
    reveal_strlit("frogenv.read");
    assert("proxmox.config"@.len() != "frogenv.read"@.len());
    reveal_strlit("frogenv.operate");
    assert("proxmox.config"@.len() != "frogenv.operate"@.len());
    reveal_strlit("tools.read");
    assert("proxmox.config"@.len() != "tools.read"@.len());
    reveal_strlit("mise.operate");
    assert("proxmox.config"@.len() != "mise.operate"@.len());
    reveal_strlit("projects.ready");
    assert("proxmox.config"@[3] != "projects.ready"@[3]);
    reveal_strlit("skills.modify");
    assert("proxmox.config"@.len() != "skills.modify"@.len());
    reveal_strlit("events.read");
    assert("proxmox.config"@.len() != "events.read"@.len());
    reveal_strlit("source.fetch");
    assert("proxmox.config"@.len() != "source.fetch"@.len());
    reveal_strlit("source.activate");
    assert("proxmox.config"@.len() != "source.activate"@.len());
    reveal_strlit("proxmox.read");
    assert("proxmox.config"@.len() != "proxmox.read"@.len());
}

proof fn lemma_id_39()
    ensures
        permission_of_id("images.read"@) == Some(Permission::ImagesRead),
{
    reveal_strlit("images.read");
    reveal_strlit("system.read");
    assert("images.read"@[0] != "system.read"@[0]);
    reveal_strlit("operation.read");
    assert("images.read"@.len() != "operation.read"@.len());
    reveal_strlit("operation.create");
    assert("images.read"@.len() != "operation.create"@.len());
    reveal_strlit("operation.cancel");
    assert("images.read"@.len() != "operation.cancel"@.len());
    reveal_strlit("secret.list");
    assert("images.read"@[0] != "secret.list"@[0]);
    reveal_strlit("secret.read");
    assert("images.read"@[0] != "secret.read"@[0]);
    reveal_strlit("secret.write");
    assert("images.read"@.len() != "secret.write"@.len());
    reveal_strlit("secret.delete");
    assert("images.read"@.len() != "secret.delete"@.len());
    reveal_strlit("audit.read");
    assert("images.read"@.len() != "audit.read"@.len());
    reveal_strlit("machine.read");
    assert("images.read"@.len() != "machine.read"@.len());
    reveal_strlit("machine.read.sensitive");
    assert("images.read"@.len() != "machine.read.sensitive"@.len());
    reveal_strlit("machine.create");
    assert("images.read"@.len() != "machine.create"@.len());
    reveal_strlit("machine.update");
    assert("images.read"@.len() != "machine.update"@.len());
    reveal_strlit("machine.delete");
    assert("images.read"@.len() != "machine.delete"@.len());
    reveal_strlit("node.enroll");
    assert("images.read"@[0] != "node.enroll"@[0]);
    reveal_strlit("node.read");
    assert("images.read"@.len() != "node.read"@.len());
    reveal_strlit("node.revoke");
    assert("images.read"@[0] != "node.revoke"@[0]);
    reveal_strlit("tailscale.read");
    assert("images.read"@.len() != "tailscale.read"@.len());
    reveal_strlit("tailscale.config");
    assert("images.read"@.len() != "tailscale.config"@.len());
    reveal_strlit("projects.read");
    assert("images.read"@.len() != "projects.read"@.len());
    reveal_strlit("projects.create");
    assert("images.read"@.len() != "projects.create"@.len());
    reveal_strlit("projects.update");
    assert("images.read"@.len() != "projects.update"@.len());
    reveal_strlit("projects.delete");
    assert("images.read"@.len() != "projects.delete"@.len());
    reveal_strlit("projects.discover");
    assert("images.read"@.len() != "projects.discover"@.len());
    reveal_strlit("projects.git.write");
    assert("images.read"@.len() != "projects.git.write"@.len());
    reveal_strlit("projects.file.write");
    assert("images.read"@.len() != "projects.file.write"@.len());
    reveal_strlit("skills.read");
    assert("images.read"@[0] != "skills.read"@[0]);
    reveal_strlit("skills.deploy");
    assert("images.read"@.len() != "skills.deploy"@.len());
    reveal_strlit("frogenv.read");
    assert("images.read"@.len() != "frogenv.read"@.len());
    reveal_strlit("frogenv.operate");
    assert("images.read"@.len() != "frogenv.operate"@.len());
    reveal_strlit("tools.read");
    assert("images.read"@.len() != "tools.read"@.len());
    reveal_strlit("mise.operate");
    assert("images.read"@.len() != "mise.operate"@.len());
    reveal_strlit("projects.ready");
    assert("images.read"@.len() != "projects.ready"@.len());
    reveal_strlit("skills.modify");
    assert("images.read"@.len() != "skills.modify"@.len());
    reveal_strlit("events.read");
    assert("images.read"@[0] != "events.read"@[0]);
    reveal_strlit("source.fetch");
    assert("images.read"@.len() != "source.fetch"@.len());
    reveal_strlit("source.activate");
    assert("images.read"@.len() != "source.activate"@.len());
    reveal_strlit("proxmox.read");
    assert("images.read"@.len() != "proxmox.read"@.len());
    reveal_strlit("proxmox.config");
    assert("images.read"@.len() != "proxmox.config"@.len());
}

proof fn lemma_id_40()
    ensures
        permission_of_id("images.config"@) == Some(Permission::ImagesConfig),
{
    reveal_strlit("images.config");
    reveal_strlit("system.read");
    assert("images.config"@.len() != "system.read"@.len());
    reveal_strlit("operation.read");
    assert("images.config"@.len() != "operation.read"@.len());
    reveal_strlit("operation.create");
    assert("images.config"@.len() != "operation.create"@.len());
    reveal_strlit("operation.cancel");
    assert("images.config"@.len() != "operation.cancel"@.len());
    reveal_strlit("secret.list");
    assert("images.config"@.len() != "secret.list"@.len());
    reveal_strlit("secret.read");
    assert("images.config"@.len() != "secret.read"@.len());
    reveal_strlit("secret.write");
    assert("images.config"@.len() != "secret.write"@.len());
    reveal_strlit("secret.delete");
    assert("images.config"@[0] != "secret.delete"@[0]);
    reveal_strlit("audit.read");
    assert("images.config"@.len() != "audit.read"@.len());
    reveal_strlit("machine.read");
    assert("images.config"@.len() != "machine.read"@.len());
    reveal_strlit("machine.read.sensitive");
    assert("images.config"@.len() != "machine.read.sensitive"@.len());
    reveal_strlit("machine.create");
    assert("images.config"@.len() != "machine.create"@.len());
    reveal_strlit("machine.update");
    assert("images.config"@.len() != "machine.update"@.len());
    reveal_strlit("machine.delete");
    assert("images.config"@.len() != "machine.delete"@.len());
    reveal_strlit("node.enroll");
    assert("images.config"@.len() != "node.enroll"@.len());
    reveal_strlit("node.read");
    assert("images.config"@.len() != "node.read"@.len());
    reveal_strlit("node.revoke");
    assert("images.config"@.len() != "node.revoke"@.len());
    reveal_strlit("tailscale.read");
    assert("images.config"@.len() != "tailscale.read"@.len());
    reveal_strlit("tailscale.config");
    assert("images.config"@.len() != "tailscale.config"@.len());
    reveal_strlit("projects.read");
    assert("images.config"@[0] != "projects.read"@[0]);
    reveal_strlit("projects.create");
    assert("images.config"@.len() != "projects.create"@.len());
    reveal_strlit("projects.update");
    assert("images.config"@.len() != "projects.update"@.len());
    reveal_strlit("projects.delete");
    assert("images.config"@.len() != "projects.delete"@.len());
    reveal_strlit("projects.discover");
    assert("images.config"@.len() != "projects.discover"@.len());
    reveal_strlit("projects.git.write");
    assert("images.config"@.len() != "projects.git.write"@.len());
    reveal_strlit("projects.file.write");
    assert("images.config"@.len() != "projects.file.write"@.len());
    reveal_strlit("skills.read");
    assert("images.config"@.len() != "skills.read"@.len());
    reveal_strlit("skills.deploy");
    assert("images.config"@[0] != "skills.deploy"@[0]);
    reveal_strlit("frogenv.read");
    assert("images.config"@.len() != "frogenv.read"@.len());
    reveal_strlit("frogenv.operate");
    assert("images.config"@.len() != "frogenv.operate"@.len());
    reveal_strlit("tools.read");
    assert("images.config"@.len() != "tools.read"@.len());
    reveal_strlit("mise.operate");
    assert("images.config"@.len() != "mise.operate"@.len());
    reveal_strlit("projects.ready");
    assert("images.config"@.len() != "projects.ready"@.len());
    reveal_strlit("skills.modify");
    assert("images.config"@[0] != "skills.modify"@[0]);
    reveal_strlit("events.read");
    assert("images.config"@.len() != "events.read"@.len());
    reveal_strlit("source.fetch");
    assert("images.config"@.len() != "source.fetch"@.len());
    reveal_strlit("source.activate");
    assert("images.config"@.len() != "source.activate"@.len());
    reveal_strlit("proxmox.read");
    assert("images.config"@.len() != "proxmox.read"@.len());
    reveal_strlit("proxmox.config");
    assert("images.config"@.len() != "proxmox.config"@.len());
    reveal_strlit("images.read");
    assert("images.config"@.len() != "images.read"@.len());
}

proof fn lemma_id_41()
    ensures
        permission_of_id("lab.read"@) == Some(Permission::LabRead),
{
    reveal_strlit("lab.read");
    reveal_strlit("system.read");
    assert("lab.read"@.len() != "system.read"@.len());
    reveal_strlit("operation.read");
    assert("lab.read"@.len() != "operation.read"@.len());
    reveal_strlit("operation.create");
    assert("lab.read"@.len() != "operation.create"@.len());
    reveal_strlit("operation.cancel");
    assert("lab.read"@.len() != "operation.cancel"@.len());
    reveal_strlit("secret.list");
    assert("lab.read"@.len() != "secret.list"@.len());
    reveal_strlit("secret.read");
    assert("lab.read"@.len() != "secret.read"@.len());
    reveal_strlit("secret.write");
    assert("lab.read"@.len() != "secret.write"@.len());
    reveal_strlit("secret.delete");
    assert("lab.read"@.len() != "secret.delete"@.len());
    reveal_strlit("audit.read");
    assert("lab.read"@.len() != "audit.read"@.len());
    reveal_strlit("machine.read");
    assert("lab.read"@.len() != "machine.read"@.len());
    reveal_strlit("machine.read.sensitive");
    assert("lab.read"@.len() != "machine.read.sensitive"@.len());
    reveal_strlit("machine.create");
    assert("lab.read"@.len() != "machine.create"@.len());
    reveal_strlit("machine.update");
    assert("lab.read"@.len() != "machine.update"@.len());
    reveal_strlit("machine.delete");
    assert("lab.read"@.len() != "machine.delete"@.len());
    reveal_strlit("node.enroll");
    assert("lab.read"@.len() != "node.enroll"@.len());
    reveal_strlit("node.read");
    assert("lab.read"@.len() != "node.read"@.len());
    reveal_strlit("node.revoke");
    assert("lab.read"@.len() != "node.revoke"@.len());
    reveal_strlit("tailscale.read");
    assert("lab.read"@.len() != "tailscale.read"@.len());
    reveal_strlit("tailscale.config");
    assert("lab.read"@.len() != "tailscale.config"@.len());
    reveal_strlit("projects.read");
    assert("lab.read"@.len() != "projects.read"@.len());
    reveal_strlit("projects.create");
    assert("lab.read"@.len() != "projects.create"@.len());
    reveal_strlit("projects.update");
    assert("lab.read"@.len() != "projects.update"@.len());
    reveal_strlit("projects.delete");
    assert("lab.read"@.len() != "projects.delete"@.len());
    reveal_strlit("projects.discover");
    assert("lab.read"@.len() != "projects.discover"@.len());
    reveal_strlit("projects.git.write");
    assert("lab.read"@.len() != "projects.git.write"@.len());
    reveal_strlit("projects.file.write");
    assert("lab.read"@.len() != "projects.file.write"@.len());
    reveal_strlit("skills.read");
    assert("lab.read"@.len() != "skills.read"@.len());
    reveal_strlit("skills.deploy");
    assert("lab.read"@.len() != "skills.deploy"@.len());
    reveal_strlit("frogenv.read");
    assert("lab.read"@.len() != "frogenv.read"@.len());
    reveal_strlit("frogenv.operate");
    assert("lab.read"@.len() != "frogenv.operate"@.len());
    reveal_strlit("tools.read");
    assert("lab.read"@.len() != "tools.read"@.len());
    reveal_strlit("mise.operate");
    assert("lab.read"@.len() != "mise.operate"@.len());
    reveal_strlit("projects.ready");
    assert("lab.read"@.len() != "projects.ready"@.len());
    reveal_strlit("skills.modify");
    assert("lab.read"@.len() != "skills.modify"@.len());
    reveal_strlit("events.read");
    assert("lab.read"@.len() != "events.read"@.len());
    reveal_strlit("source.fetch");
    assert("lab.read"@.len() != "source.fetch"@.len());
    reveal_strlit("source.activate");
    assert("lab.read"@.len() != "source.activate"@.len());
    reveal_strlit("proxmox.read");
    assert("lab.read"@.len() != "proxmox.read"@.len());
    reveal_strlit("proxmox.config");
    assert("lab.read"@.len() != "proxmox.config"@.len());
    reveal_strlit("images.read");
    assert("lab.read"@.len() != "images.read"@.len());
    reveal_strlit("images.config");
    assert("lab.read"@.len() != "images.config"@.len());
}

proof fn lemma_id_42()
    ensures
        permission_of_id("lab.config"@) == Some(Permission::LabConfig),
{
    reveal_strlit("lab.config");
    reveal_strlit("system.read");
    assert("lab.config"@.len() != "system.read"@.len());
    reveal_strlit("operation.read");
    assert("lab.config"@.len() != "operation.read"@.len());
    reveal_strlit("operation.create");
    assert("lab.config"@.len() != "operation.create"@.len());
    reveal_strlit("operation.cancel");
    assert("lab.config"@.len() != "operation.cancel"@.len());
    reveal_strlit("secret.list");
    assert("lab.config"@.len() != "secret.list"@.len());
    reveal_strlit("secret.read");
    assert("lab.config"@.len() != "secret.read"@.len());
    reveal_strlit("secret.write");
    assert("lab.config"@.len() != "secret.write"@.len());
    reveal_strlit("secret.delete");
    assert("lab.config"@.len() != "secret.delete"@.len());
    reveal_strlit("audit.read");
    assert("lab.config"@[0] != "audit.read"@[0]);
    reveal_strlit("machine.read");
    assert("lab.config"@.len() != "machine.read"@.len());
    reveal_strlit("machine.read.sensitive");
    assert("lab.config"@.len() != "machine.read.sensitive"@.len());
    reveal_strlit("machine.create");
    assert("lab.config"@.len() != "machine.create"@.len());
    reveal_strlit("machine.update");
    assert("lab.config"@.len() != "machine.update"@.len());
    reveal_strlit("machine.delete");
    assert("lab.config"@.len() != "machine.delete"@.len());
    reveal_strlit("node.enroll");
    assert("lab.config"@.len() != "node.enroll"@.len());
    reveal_strlit("node.read");
    assert("lab.config"@.len() != "node.read"@.len());
    reveal_strlit("node.revoke");
    assert("lab.config"@.len() != "node.revoke"@.len());
    reveal_strlit("tailscale.read");
    assert("lab.config"@.len() != "tailscale.read"@.len());
    reveal_strlit("tailscale.config");
    assert("lab.config"@.len() != "tailscale.config"@.len());
    reveal_strlit("projects.read");
    assert("lab.config"@.len() != "projects.read"@.len());
    reveal_strlit("projects.create");
    assert("lab.config"@.len() != "projects.create"@.len());
    reveal_strlit("projects.update");
    assert("lab.config"@.len() != "projects.update"@.len());
    reveal_strlit("projects.delete");
    assert("lab.config"@.len() != "projects.delete"@.len());
    reveal_strlit("projects.discover");
    assert("lab.config"@.len() != "projects.discover"@.len());
    reveal_strlit("projects.git.write");
    assert("lab.config"@.len() != "projects.git.write"@.len());
    reveal_strlit("projects.file.write");
    assert("lab.config"@.len() != "projects.file.write"@.len());
    reveal_strlit("skills.read");
    assert("lab.config"@.len() != "skills.read"@.len());
    reveal_strlit("skills.deploy");
    assert("lab.config"@.len() != "skills.deploy"@.len());
    reveal_strlit("frogenv.read");
    assert("lab.config"@.len() != "frogenv.read"@.len());
    reveal_strlit("frogenv.operate");
    assert("lab.config"@.len() != "frogenv.operate"@.len());
    reveal_strlit("tools.read");
    assert("lab.config"@[0] != "tools.read"@[0]);
    reveal_strlit("mise.operate");
    assert("lab.config"@.len() != "mise.operate"@.len());
    reveal_strlit("projects.ready");
    assert("lab.config"@.len() != "projects.ready"@.len());
    reveal_strlit("skills.modify");
    assert("lab.config"@.len() != "skills.modify"@.len());
    reveal_strlit("events.read");
    assert("lab.config"@.len() != "events.read"@.len());
    reveal_strlit("source.fetch");
    assert("lab.config"@.len() != "source.fetch"@.len());
    reveal_strlit("source.activate");
    assert("lab.config"@.len() != "source.activate"@.len());
    reveal_strlit("proxmox.read");
    assert("lab.config"@.len() != "proxmox.read"@.len());
    reveal_strlit("proxmox.config");
    assert("lab.config"@.len() != "proxmox.config"@.len());
    reveal_strlit("images.read");
    assert("lab.config"@.len() != "images.read"@.len());
    reveal_strlit("images.config");
    assert("lab.config"@.len() != "images.config"@.len());
    reveal_strlit("lab.read");
    assert("lab.config"@.len() != "lab.read"@.len());
}

proof fn lemma_id_43()
    ensures
        permission_of_id("lab.lease"@) == Some(Permission::LabLease),
{
    reveal_strlit("lab.lease");
    reveal_strlit("system.read");
    assert("lab.lease"@.len() != "system.read"@.len());
    reveal_strlit("operation.read");
    assert("lab.lease"@.len() != "operation.read"@.len());
    reveal_strlit("operation.create");
    assert("lab.lease"@.len() != "operation.create"@.len());
    reveal_strlit("operation.cancel");
    assert("lab.lease"@.len() != "operation.cancel"@.len());
    reveal_strlit("secret.list");
    assert("lab.lease"@.len() != "secret.list"@.len());
    reveal_strlit("secret.read");
    assert("lab.lease"@.len() != "secret.read"@.len());
    reveal_strlit("secret.write");
    assert("lab.lease"@.len() != "secret.write"@.len());
    reveal_strlit("secret.delete");
    assert("lab.lease"@.len() != "secret.delete"@.len());
    reveal_strlit("audit.read");
    assert("lab.lease"@.len() != "audit.read"@.len());
    reveal_strlit("machine.read");
    assert("lab.lease"@.len() != "machine.read"@.len());
    reveal_strlit("machine.read.sensitive");
    assert("lab.lease"@.len() != "machine.read.sensitive"@.len());
    reveal_strlit("machine.create");
    assert("lab.lease"@.len() != "machine.create"@.len());
    reveal_strlit("machine.update");
    assert("lab.lease"@.len() != "machine.update"@.len());
    reveal_strlit("machine.delete");
    assert("lab.lease"@.len() != "machine.delete"@.len());
    reveal_strlit("node.enroll");
    assert("lab.lease"@.len() != "node.enroll"@.len());
    reveal_strlit("node.read");
    assert("lab.lease"@[0] != "node.read"@[0]);
    reveal_strlit("node.revoke");
    assert("lab.lease"@.len() != "node.revoke"@.len());
    reveal_strlit("tailscale.read");
    assert("lab.lease"@.len() != "tailscale.read"@.len());
    reveal_strlit("tailscale.config");
    assert("lab.lease"@.len() != "tailscale.config"@.len());
    reveal_strlit("projects.read");
    assert("lab.lease"@.len() != "projects.read"@.len());
    reveal_strlit("projects.create");
    assert("lab.lease"@.len() != "projects.create"@.len());
    reveal_strlit("projects.update");
    assert("lab.lease"@.len() != "projects.update"@.len());
    reveal_strlit("projects.delete");
    assert("lab.lease"@.len() != "projects.delete"@.len());
    reveal_strlit("projects.discover");
    assert("lab.lease"@.len() != "projects.discover"@.len());
    reveal_strlit("projects.git.write");
    assert("lab.lease"@.len() != "projects.git.write"@.len());
    reveal_strlit("projects.file.write");
    assert("lab.lease"@.len() != "projects.file.write"@.len());
    reveal_strlit("skills.read");
    assert("lab.lease"@.len() != "skills.read"@.len());
    reveal_strlit("skills.deploy");
    assert("lab.lease"@.len() != "skills.deploy"@.len());
    reveal_strlit("frogenv.read");
    assert("lab.lease"@.len() != "frogenv.read"@.len());
    reveal_strlit("frogenv.operate");
    assert("lab.lease"@.len() != "frogenv.operate"@.len());
    reveal_strlit("tools.read");
    assert("lab.lease"@.len() != "tools.read"@.len());
    reveal_strlit("mise.operate");
    assert("lab.lease"@.len() != "mise.operate"@.len());
    reveal_strlit("projects.ready");
    assert("lab.lease"@.len() != "projects.ready"@.len());
    reveal_strlit("skills.modify");
    assert("lab.lease"@.len() != "skills.modify"@.len());
    reveal_strlit("events.read");
    assert("lab.lease"@.len() != "events.read"@.len());
    reveal_strlit("source.fetch");
    assert("lab.lease"@.len() != "source.fetch"@.len());
    reveal_strlit("source.activate");
    assert("lab.lease"@.len() != "source.activate"@.len());
    reveal_strlit("proxmox.read");
    assert("lab.lease"@.len() != "proxmox.read"@.len());
    reveal_strlit("proxmox.config");
    assert("lab.lease"@.len() != "proxmox.config"@.len());
    reveal_strlit("images.read");
    assert("lab.lease"@.len() != "images.read"@.len());
    reveal_strlit("images.config");
    assert("lab.lease"@.len() != "images.config"@.len());
    reveal_strlit("lab.read");
    assert("lab.lease"@.len() != "lab.read"@.len());
    reveal_strlit("lab.config");
    assert("lab.lease"@.len() != "lab.config"@.len());
}

proof fn lemma_id_44()
    ensures
        permission_of_id("lab.extend"@) == Some(Permission::LabExtend),
{
    reveal_strlit("lab.extend");
    reveal_strlit("system.read");
    assert("lab.extend"@.len() != "system.read"@.len());
    reveal_strlit("operation.read");
    assert("lab.extend"@.len() != "operation.read"@.len());
    reveal_strlit("operation.create");
    assert("lab.extend"@.len() != "operation.create"@.len());
    reveal_strlit("operation.cancel");
    assert("lab.extend"@.len() != "operation.cancel"@.len());
    reveal_strlit("secret.list");
    assert("lab.extend"@.len() != "secret.list"@.len());
    reveal_strlit("secret.read");
    assert("lab.extend"@.len() != "secret.read"@.len());
    reveal_strlit("secret.write");
    assert("lab.extend"@.len() != "secret.write"@.len());
    reveal_strlit("secret.delete");
    assert("lab.extend"@.len() != "secret.delete"@.len());
    reveal_strlit("audit.read");
    assert("lab.extend"@[0] != "audit.read"@[0]);
    reveal_strlit("machine.read");
    assert("lab.extend"@.len() != "machine.read"@.len());
    reveal_strlit("machine.read.sensitive");
    assert("lab.extend"@.len() != "machine.read.sensitive"@.len());
    reveal_strlit("machine.create");
    assert("lab.extend"@.len() != "machine.create"@.len());
    reveal_strlit("machine.update");
    assert("lab.extend"@.len() != "machine.update"@.len());
    reveal_strlit("machine.delete");
    assert("lab.extend"@.len() != "machine.delete"@.len());
    reveal_strlit("node.enroll");
    assert("lab.extend"@.len() != "node.enroll"@.len());
    reveal_strlit("node.read");
    assert("lab.extend"@.len() != "node.read"@.len());
    reveal_strlit("node.revoke");
    assert("lab.extend"@.len() != "node.revoke"@.len());
    reveal_strlit("tailscale.read");
    assert("lab.extend"@.len() != "tailscale.read"@.len());
    reveal_strlit("tailscale.config");
    assert("lab.extend"@.len() != "tailscale.config"@.len());
    reveal_strlit("projects.read");
    assert("lab.extend"@.len() != "projects.read"@.len());
    reveal_strlit("projects.create");
    assert("lab.extend"@.len() != "projects.create"@.len());
    reveal_strlit("projects.update");
    assert("lab.extend"@.len() != "projects.update"@.len());
    reveal_strlit("projects.delete");
    assert("lab.extend"@.len() != "projects.delete"@.len());
    reveal_strlit("projects.discover");
    assert("lab.extend"@.len() != "projects.discover"@.len());
    reveal_strlit("projects.git.write");
    assert("lab.extend"@.len() != "projects.git.write"@.len());
    reveal_strlit("projects.file.write");
    assert("lab.extend"@.len() != "projects.file.write"@.len());
    reveal_strlit("skills.read");
    assert("lab.extend"@.len() != "skills.read"@.len());
    reveal_strlit("skills.deploy");
    assert("lab.extend"@.len() != "skills.deploy"@.len());
    reveal_strlit("frogenv.read");
    assert("lab.extend"@.len() != "frogenv.read"@.len());
    reveal_strlit("frogenv.operate");
    assert("lab.extend"@.len() != "frogenv.operate"@.len());
    reveal_strlit("tools.read");
    assert("lab.extend"@[0] != "tools.read"@[0]);
    reveal_strlit("mise.operate");
    assert("lab.extend"@.len() != "mise.operate"@.len());
    reveal_strlit("projects.ready");
    assert("lab.extend"@.len() != "projects.ready"@.len());
    reveal_strlit("skills.modify");
    assert("lab.extend"@.len() != "skills.modify"@.len());
    reveal_strlit("events.read");
    assert("lab.extend"@.len() != "events.read"@.len());
    reveal_strlit("source.fetch");
    assert("lab.extend"@.len() != "source.fetch"@.len());
    reveal_strlit("source.activate");
    assert("lab.extend"@.len() != "source.activate"@.len());
    reveal_strlit("proxmox.read");
    assert("lab.extend"@.len() != "proxmox.read"@.len());
    reveal_strlit("proxmox.config");
    assert("lab.extend"@.len() != "proxmox.config"@.len());
    reveal_strlit("images.read");
    assert("lab.extend"@.len() != "images.read"@.len());
    reveal_strlit("images.config");
    assert("lab.extend"@.len() != "images.config"@.len());
    reveal_strlit("lab.read");
    assert("lab.extend"@.len() != "lab.read"@.len());
    reveal_strlit("lab.config");
    assert("lab.extend"@[4] != "lab.config"@[4]);
    reveal_strlit("lab.lease");
    assert("lab.extend"@.len() != "lab.lease"@.len());
}

proof fn lemma_id_45()
    ensures
        permission_of_id("lab.keep"@) == Some(Permission::LabKeep),
{
    reveal_strlit("lab.keep");
    reveal_strlit("system.read");
    assert("lab.keep"@.len() != "system.read"@.len());
    reveal_strlit("operation.read");
    assert("lab.keep"@.len() != "operation.read"@.len());
    reveal_strlit("operation.create");
    assert("lab.keep"@.len() != "operation.create"@.len());
    reveal_strlit("operation.cancel");
    assert("lab.keep"@.len() != "operation.cancel"@.len());
    reveal_strlit("secret.list");
    assert("lab.keep"@.len() != "secret.list"@.len());
    reveal_strlit("secret.read");
    assert("lab.keep"@.len() != "secret.read"@.len());
    reveal_strlit("secret.write");
    assert("lab.keep"@.len() != "secret.write"@.len());
    reveal_strlit("secret.delete");
    assert("lab.keep"@.len() != "secret.delete"@.len());
    reveal_strlit("audit.read");
    assert("lab.keep"@.len() != "audit.read"@.len());
    reveal_strlit("machine.read");
    assert("lab.keep"@.len() != "machine.read"@.len());
    reveal_strlit("machine.read.sensitive");
    assert("lab.keep"@.len() != "machine.read.sensitive"@.len());
    reveal_strlit("machine.create");
    assert("lab.keep"@.len() != "machine.create"@.len());
    reveal_strlit("machine.update");
    assert("lab.keep"@.len() != "machine.update"@.len());
    reveal_strlit("machine.delete");
    assert("lab.keep"@.len() != "machine.delete"@.len());
    reveal_strlit("node.enroll");
    assert("lab.keep"@.len() != "node.enroll"@.len());
    reveal_strlit("node.read");
    assert("lab.keep"@.len() != "node.read"@.len());
    reveal_strlit("node.revoke");
    assert("lab.keep"@.len() != "node.revoke"@.len());
    reveal_strlit("tailscale.read");
    assert("lab.keep"@.len() != "tailscale.read"@.len());
    reveal_strlit("tailscale.config");
    assert("lab.keep"@.len() != "tailscale.config"@.len());
    reveal_strlit("projects.read");
    assert("lab.keep"@.len() != "projects.read"@.len());
    reveal_strlit("projects.create");
    assert("lab.keep"@.len() != "projects.create"@.len());
    reveal_strlit("projects.update");
    assert("lab.keep"@.len() != "projects.update"@.len());
    reveal_strlit("projects.delete");
    assert("lab.keep"@.len() != "projects.delete"@.len());
    reveal_strlit("projects.discover");
    assert("lab.keep"@.len() != "projects.discover"@.len());
    reveal_strlit("projects.git.write");
    assert("lab.keep"@.len() != "projects.git.write"@.len());
    reveal_strlit("projects.file.write");
    assert("lab.keep"@.len() != "projects.file.write"@.len());
    reveal_strlit("skills.read");
    assert("lab.keep"@.len() != "skills.read"@.len());
    reveal_strlit("skills.deploy");
    assert("lab.keep"@.len() != "skills.deploy"@.len());
    reveal_strlit("frogenv.read");
    assert("lab.keep"@.len() != "frogenv.read"@.len());
    reveal_strlit("frogenv.operate");
    assert("lab.keep"@.len() != "frogenv.operate"@.len());
    reveal_strlit("tools.read");
    assert("lab.keep"@.len() != "tools.read"@.len());
    reveal_strlit("mise.operate");
    assert("lab.keep"@.len() != "mise.operate"@.len());
    reveal_strlit("projects.ready");
    assert("lab.keep"@.len() != "projects.ready"@.len());
    reveal_strlit("skills.modify");
    assert("lab.keep"@.len() != "skills.modify"@.len());
    reveal_strlit("events.read");
    assert("lab.keep"@.len() != "events.read"@.len());
    reveal_strlit("source.fetch");
    assert("lab.keep"@.len() != "source.fetch"@.len());
    reveal_strlit("source.activate");
    assert("lab.keep"@.len() != "source.activate"@.len());
    reveal_strlit("proxmox.read");
    assert("lab.keep"@.len() != "proxmox.read"@.len());
    reveal_strlit("proxmox.config");
    assert("lab.keep"@.len() != "proxmox.config"@.len());
    reveal_strlit("images.read");
    assert("lab.keep"@.len() != "images.read"@.len());
    reveal_strlit("images.config");
    assert("lab.keep"@.len() != "images.config"@.len());
    reveal_strlit("lab.read");
    assert("lab.keep"@[4] != "lab.read"@[4]);
    reveal_strlit("lab.config");
    assert("lab.keep"@.len() != "lab.config"@.len());
    reveal_strlit("lab.lease");
    assert("lab.keep"@.len() != "lab.lease"@.len());
    reveal_strlit("lab.extend");
    assert("lab.keep"@.len() != "lab.extend"@.len());
}

proof fn lemma_id_46()
    ensures
        permission_of_id("lab.provision"@) == Some(Permission::LabProvision),
{
    reveal_strlit("lab.provision");
    reveal_strlit("system.read");
    assert("lab.provision"@.len() != "system.read"@.len());
    reveal_strlit("operation.read");
    assert("lab.provision"@.len() != "operation.read"@.len());
    reveal_strlit("operation.create");
    assert("lab.provision"@.len() != "operation.create"@.len());
    reveal_strlit("operation.cancel");
    assert("lab.provision"@.len() != "operation.cancel"@.len());
    reveal_strlit("secret.list");
    assert("lab.provision"@.len() != "secret.list"@.len());
    reveal_strlit("secret.read");
    assert("lab.provision"@.len() != "secret.read"@.len());
    reveal_strlit("secret.write");
    assert("lab.provision"@.len() != "secret.write"@.len());
    reveal_strlit("secret.delete");
    assert("lab.provision"@[0] != "secret.delete"@[0]);
    reveal_strlit("audit.read");
    assert("lab.provision"@.len() != "audit.read"@.len());
    reveal_strlit("machine.read");
    assert("lab.provision"@.len() != "machine.read"@.len());
    reveal_strlit("machine.read.sensitive");
    assert("lab.provision"@.len() != "machine.read.sensitive"@.len());
    reveal_strlit("machine.create");
    assert("lab.provision"@.len() != "machine.create"@.len());
    reveal_strlit("machine.update");
    assert("lab.provision"@.len() != "machine.update"@.len());
    reveal_strlit("machine.delete");
    assert("lab.provision"@.len() != "machine.delete"@.len());
    reveal_strlit("node.enroll");
    assert("lab.provision"@.len() != "node.enroll"@.len());
    reveal_strlit("node.read");
    assert("lab.provision"@.len() != "node.read"@.len());
    reveal_strlit("node.revoke");
    assert("lab.provision"@.len() != "node.revoke"@.len());
    reveal_strlit("tailscale.read");
    assert("lab.provision"@.len() != "tailscale.read"@.len());
    reveal_strlit("tailscale.config");
    assert("lab.provision"@.len() != "tailscale.config"@.len());
    reveal_strlit("projects.read");
    assert("lab.provision"@[0] != "projects.read"@[0]);
    reveal_strlit("projects.create");
    assert("lab.provision"@.len() != "projects.create"@.len());
    reveal_strlit("projects.update");
    assert("lab.provision"@.len() != "projects.update"@.len());
    reveal_strlit("projects.delete");
    assert("lab.provision"@.len() != "projects.delete"@.len());
    reveal_strlit("projects.discover");
    assert("lab.provision"@.len() != "projects.discover"@.len());
    reveal_strlit("projects.git.write");
    assert("lab.provision"@.len() != "projects.git.write"@.len());
    reveal_strlit("projects.file.write");
    assert("lab.provision"@.len() != "projects.file.write"@.len());
    reveal_strlit("skills.read");
    assert("lab.provision"@.len() != "skills.read"@.len());
    reveal_strlit("skills.deploy");
    assert("lab.provision"@[0] != "skills.deploy"@[0]);
    reveal_strlit("frogenv.read");
    assert("lab.provision"@.len() != "frogenv.read"@.len());
    reveal_strlit("frogenv.operate");
    assert("lab.provision"@.len() != "frogenv.operate"@.len());
    reveal_strlit("tools.read");
    assert("lab.provision"@.len() != "tools.read"@.len());
    reveal_strlit("mise.operate");
    assert("lab.provision"@.len() != "mise.operate"@.len());
    reveal_strlit("projects.ready");
    assert("lab.provision"@.len() != "projects.ready"@.len());
    reveal_strlit("skills.modify");
    assert("lab.provision"@[0] != "skills.modify"@[0]);
    reveal_strlit("events.read");
    assert("lab.provision"@.len() != "events.read"@.len());
    reveal_strlit("source.fetch");
    assert("lab.provision"@.len() != "source.fetch"@.len());
    reveal_strlit("source.activate");
    assert("lab.provision"@.len() != "source.activate"@.len());
    reveal_strlit("proxmox.read");
    assert("lab.provision"@.len() != "proxmox.read"@.len());
    reveal_strlit("proxmox.config");
    assert("lab.provision"@.len() != "proxmox.config"@.len());
    reveal_strlit("images.read");
    assert("lab.provision"@.len() != "images.read"@.len());
    reveal_strlit("images.config");
    assert("lab.provision"@[0] != "images.config"@[0]);
    reveal_strlit("lab.read");
    assert("lab.provision"@.len() != "lab.read"@.len());
    reveal_strlit("lab.config");
    assert("lab.provision"@.len() != "lab.config"@.len());
    reveal_strlit("lab.lease");
    assert("lab.provision"@.len() != "lab.lease"@.len());
    reveal_strlit("lab.extend");
    assert("lab.provision"@.len() != "lab.extend"@.len());
    reveal_strlit("lab.keep");
    assert("lab.provision"@.len() != "lab.keep"@.len());
}

proof fn lemma_id_names_its_action(p: Permission)
    ensures
        permission_of_id(p.spec_id()) == Some(p),
{
    match p {
        Permission::SystemRead => lemma_id_0(),
        Permission::OperationRead => lemma_id_1(),
        Permission::OperationCreate => lemma_id_2(),
        Permission::OperationCancel => lemma_id_3(),
        Permission::SecretList => lemma_id_4(),
        Permission::SecretRead => lemma_id_5(),
        Permission::SecretWrite => lemma_id_6(),
        Permission::SecretDelete => lemma_id_7(),
        Permission::AuditRead => lemma_id_8(),
        Permission::MachineRead => lemma_id_9(),
        Permission::MachineReadSensitive => lemma_id_10(),
        Permission::MachineCreate => lemma_id_11(),
        Permission::MachineUpdate => lemma_id_12(),
        Permission::MachineDelete => lemma_id_13(),
        Permission::NodeEnroll => lemma_id_14(),
        Permission::NodeRead => lemma_id_15(),
        Permission::NodeRevoke => lemma_id_16(),
        Permission::TailnetRead => lemma_id_17(),
        Permission::TailnetConfig => lemma_id_18(),
        Permission::ProjectsRead => lemma_id_19(),
        Permission::ProjectsCreate => lemma_id_20(),
        Permission::ProjectsUpdate => lemma_id_21(),
        Permission::ProjectsDelete => lemma_id_22(),
        Permission::ProjectsDiscover => lemma_id_23(),
        Permission::ProjectsGitWrite => lemma_id_24(),
        Permission::ProjectsFileWrite => lemma_id_25(),
        Permission::SkillsRead => lemma_id_26(),
        Permission::SkillsDeploy => lemma_id_27(),
        Permission::FrogenvRead => lemma_id_28(),
        Permission::FrogenvOperate => lemma_id_29(),
        Permission::ToolsRead => lemma_id_30(),
        Permission::MiseOperate => lemma_id_31(),
        Permission::ProjectsReady => lemma_id_32(),
        Permission::SkillsModify => lemma_id_33(),
        Permission::EventsRead => lemma_id_34(),
        Permission::SourceFetch => lemma_id_35(),
        Permission::SourceActivate => lemma_id_36(),
        Permission::ProxmoxRead => lemma_id_37(),
        Permission::ProxmoxConfig => lemma_id_38(),
        Permission::ImagesRead => lemma_id_39(),
        Permission::ImagesConfig => lemma_id_40(),
        Permission::LabRead => lemma_id_41(),
        Permission::LabConfig => lemma_id_42(),
        Permission::LabLease => lemma_id_43(),
        Permission::LabExtend => lemma_id_44(),
        Permission::LabKeep => lemma_id_45(),
        Permission::LabProvision => lemma_id_46(),
    }
}

/// The catalog holds each action exactly once, and no two actions share an
/// id: an id names exactly one action.
pub proof fn law_catalog_lists_each_action_once()
    ensures
        forall|p: Permission| #[trigger] Permission::spec_all().contains(p),
        forall|i: int, j: int|
            0 <= i < j < Permission::spec_all().len() ==> Permission::spec_all()[i]
                != Permission::spec_all()[j],
        forall|p: Permission, q: Permission| #[trigger] p.spec_id() == #[trigger] q.spec_id() ==> p == q,
        forall|p: Permission| #[trigger] permission_of_id(p.spec_id()) == Some(p),
{
    assert forall|p: Permission| #[trigger] Permission::spec_all().contains(p) by {
        Permission::lemma_all_contains(p);
    }
    assert forall|p: Permission| #[trigger] permission_of_id(p.spec_id()) == Some(p) by {
        lemma_id_names_its_action(p);
    }
    assert forall|p: Permission, q: Permission| #[trigger] p.spec_id() == #[trigger] q.spec_id() implies p == q by {
        lemma_id_names_its_action(p);
        lemma_id_names_its_action(q);
    }
    assert forall|i: int, j: int|
        0 <= i < j < Permission::spec_all().len() implies Permission::spec_all()[i]
            != Permission::spec_all()[j] by {
        lemma_catalog_positions(i);
        lemma_catalog_positions(j);
    }
}


/// The position of an action in the catalog.
pub open spec fn catalog_position(p: Permission) -> int {
    match p {
        Permission::SystemRead => 0,
        Permission::OperationRead => 1,
        Permission::OperationCreate => 2,
        Permission::OperationCancel => 3,
        Permission::SecretList => 4,
        Permission::SecretRead => 5,
        Permission::SecretWrite => 6,
        Permission::SecretDelete => 7,
        Permission::AuditRead => 8,
        Permission::MachineRead => 9,
        Permission::MachineReadSensitive => 10,
        Permission::MachineCreate => 11,
        Permission::MachineUpdate => 12,
        Permission::MachineDelete => 13,
        Permission::NodeEnroll => 14,
        Permission::NodeRead => 15,
        Permission::NodeRevoke => 16,
        Permission::TailnetRead => 17,
        Permission::TailnetConfig => 18,
        Permission::ProjectsRead => 19,
        Permission::ProjectsCreate => 20,
        Permission::ProjectsUpdate => 21,
        Permission::ProjectsDelete => 22,
        Permission::ProjectsDiscover => 23,
        Permission::ProjectsGitWrite => 24,
        Permission::ProjectsFileWrite => 25,
        Permission::SkillsRead => 26,
        Permission::SkillsDeploy => 27,
        Permission::FrogenvRead => 28,
        Permission::FrogenvOperate => 29,
        Permission::ToolsRead => 30,
        Permission::MiseOperate => 31,
        Permission::ProjectsReady => 32,
        Permission::SkillsModify => 33,
        Permission::EventsRead => 34,
        Permission::SourceFetch => 35,
        Permission::SourceActivate => 36,
        Permission::ProxmoxRead => 37,
        Permission::ProxmoxConfig => 38,
        Permission::ImagesRead => 39,
        Permission::ImagesConfig => 40,
        Permission::LabRead => 41,
        Permission::LabConfig => 42,
        Permission::LabLease => 43,
        Permission::LabExtend => 44,
        Permission::LabKeep => 45,
        Permission::LabProvision => 46,
    }
}

proof fn lemma_catalog_positions(i: int)
    requires
        0 <= i < Permission::spec_all().len(),
    ensures
        catalog_position(Permission::spec_all()[i]) == i,
{
    if i == 0 {
        assert(Permission::spec_all()[0] == Permission::SystemRead);
    } else if i == 1 {
        assert(Permission::spec_all()[1] == Permission::OperationRead);
    } else if i == 2 {
        assert(Permission::spec_all()[2] == Permission::OperationCreate);
    } else if i == 3 {
        assert(Permission::spec_all()[3] == Permission::OperationCancel);
    } else if i == 4 {
        assert(Permission::spec_all()[4] == Permission::SecretList);
    } else if i == 5 {
        assert(Permission::spec_all()[5] == Permission::SecretRead);
    } else if i == 6 {
        assert(Permission::spec_all()[6] == Permission::SecretWrite);
    } else if i == 7 {
        assert(Permission::spec_all()[7] == Permission::SecretDelete);
    } else if i == 8 {
        assert(Permission::spec_all()[8] == Permission::AuditRead);
    } else if i == 9 {
        assert(Permission::spec_all()[9] == Permission::MachineRead);
    } else if i == 10 {
        assert(Permission::spec_all()[10] == Permission::MachineReadSensitive);
    } else if i == 11 {
        assert(Permission::spec_all()[11] == Permission::MachineCreate);
    } else if i == 12 {
        assert(Permission::spec_all()[12] == Permission::MachineUpdate);
    } else if i == 13 {
        assert(Permission::spec_all()[13] == Permission::MachineDelete);
    } else if i == 14 {
        assert(Permission::spec_all()[14] == Permission::NodeEnroll);
    } else if i == 15 {
        assert(Permission::spec_all()[15] == Permission::NodeRead);
    } else if i == 16 {
        assert(Permission::spec_all()[16] == Permission::NodeRevoke);
    } else if i == 17 {
        assert(Permission::spec_all()[17] == Permission::TailnetRead);
    } else if i == 18 {
        assert(Permission::spec_all()[18] == Permission::TailnetConfig);
    } else if i == 19 {
        assert(Permission::spec_all()[19] == Permission::ProjectsRead);
    } else if i == 20 {
        assert(Permission::spec_all()[20] == Permission::ProjectsCreate);
    } else if i == 21 {
        assert(Permission::spec_all()[21] == Permission::ProjectsUpdate);
    } else if i == 22 {
        assert(Permission::spec_all()[22] == Permission::ProjectsDelete);
    } else if i == 23 {
        assert(Permission::spec_all()[23] == Permission::ProjectsDiscover);
    } else if i == 24 {
        assert(Permission::spec_all()[24] == Permission::ProjectsGitWrite);
    } else if i == 25 {
        assert(Permission::spec_all()[25] == Permission::ProjectsFileWrite);
    } else if i == 26 {
        assert(Permission::spec_all()[26] == Permission::SkillsRead);
    } else if i == 27 {
        assert(Permission::spec_all()[27] == Permission::SkillsDeploy);
    } else if i == 28 {
        assert(Permission::spec_all()[28] == Permission::FrogenvRead);
    } else if i == 29 {
        assert(Permission::spec_all()[29] == Permission::FrogenvOperate);
    } else if i == 30 {
        assert(Permission::spec_all()[30] == Permission::ToolsRead);
    } else if i == 31 {
        assert(Permission::spec_all()[31] == Permission::MiseOperate);
    } else if i == 32 {
        assert(Permission::spec_all()[32] == Permission::ProjectsReady);
    } else if i == 33 {
        assert(Permission::spec_all()[33] == Permission::SkillsModify);
    } else if i == 34 {
        assert(Permission::spec_all()[34] == Permission::EventsRead);
    } else if i == 35 {
        assert(Permission::spec_all()[35] == Permission::SourceFetch);
    } else if i == 36 {
        assert(Permission::spec_all()[36] == Permission::SourceActivate);
    } else if i == 37 {
        assert(Permission::spec_all()[37] == Permission::ProxmoxRead);
    } else if i == 38 {
        assert(Permission::spec_all()[38] == Permission::ProxmoxConfig);
    } else if i == 39 {
        assert(Permission::spec_all()[39] == Permission::ImagesRead);
    } else if i == 40 {
        assert(Permission::spec_all()[40] == Permission::ImagesConfig);
    } else if i == 41 {
        assert(Permission::spec_all()[41] == Permission::LabRead);
    } else if i == 42 {
        assert(Permission::spec_all()[42] == Permission::LabConfig);
    } else if i == 43 {
        assert(Permission::spec_all()[43] == Permission::LabLease);
    } else if i == 44 {
        assert(Permission::spec_all()[44] == Permission::LabExtend);
    } else if i == 45 {
        assert(Permission::spec_all()[45] == Permission::LabKeep);
    } else if i == 46 {
        assert(Permission::spec_all()[46] == Permission::LabProvision);
    }
}

} // verus!
