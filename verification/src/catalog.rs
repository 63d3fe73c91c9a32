//! The command catalog: from a command code to the command's name and to the
//! layouts of its request and response payloads.

use std::collections::HashMap;
use vstd::prelude::*;
use crate::payload::FieldDef;
use crate::payload::Schema;
use crate::payload::SchemaView;

verus! {

broadcast use vstd::std_specs::hash::group_hash_axioms;

/// Code of the `Ping` command.
pub const PING_CODE: u32 = 1;

/// Code of the `GetStats` command.
pub const GET_STATS_CODE: u32 = 10;

/// Code of the `LoginUser` command.
pub const LOGIN_USER_CODE: u32 = 38;

/// Code of the `CreateTopic` command.
pub const CREATE_TOPIC_CODE: u32 = 302;

/// One command: its code, its name, and how the payloads of its request and of
/// its response are laid out.
#[derive(Clone, Debug, PartialEq, Eq)]
pub struct CommandDescriptor {
    pub code: u32,
    pub name: &'static str,
    pub request: Schema,
    pub response: Schema,
}

/// What a `CommandDescriptor` stands for.
pub struct DescriptorView {
    pub code: u32,
    pub name: &'static str,
    pub request: SchemaView,
    pub response: SchemaView,
}

impl View for CommandDescriptor {
    type V = DescriptorView;

    open spec fn view(&self) -> DescriptorView {
        DescriptorView {
            code: self.code,
            name: self.name,
            request: self.request@,
            response: self.response@,
        }
    }
}

/// The layout of a payload without fields.
pub open spec fn empty_schema() -> SchemaView {
    SchemaView { fields: Seq::empty(), required: 0 }
}

/// `Ping`: neither request nor response carries a payload.
pub open spec fn ping_descriptor() -> DescriptorView {
    DescriptorView {
        code: PING_CODE,
        name: "Ping",
        request: empty_schema(),
        response: empty_schema(),
    }
}

/// `GetStats`: no payload fields.
pub open spec fn get_stats_descriptor() -> DescriptorView {
    DescriptorView {
        code: GET_STATS_CODE,
        name: "GetStats",
        request: empty_schema(),
        response: empty_schema(),
    }
}

/// `LoginUser`. The request holds user name and password, each behind a one-byte
/// length, then version and context, each behind a four-byte length; the last
/// two may be absent. The response holds the user's id.
pub open spec fn login_user_descriptor() -> DescriptorView {
    DescriptorView {
        code: LOGIN_USER_CODE,
        name: "LoginUser",
        request: SchemaView {
            fields: seq![
                FieldDef::Text8 { len_name: "username_len", name: "username" },
                FieldDef::Text8 { len_name: "password_len", name: "password" },
                FieldDef::Text32 { len_name: "version_len", name: "version" },
                FieldDef::Text32 { len_name: "context_len", name: "context" },
            ],
            required: 2,
        },
        response: SchemaView { fields: seq![FieldDef::U32 { name: "user_id" }], required: 1 },
    }
}

/// `CreateTopic`. The request holds the stream's identifier, the topic's name
/// behind a one-byte length, the number of partitions, the compression
/// algorithm, the message expiry and the maximal topic size, then the
/// replication factor and the topic's id, which may both be absent. The
/// response describes the topic created.
pub open spec fn create_topic_descriptor() -> DescriptorView {
    DescriptorView {
        code: CREATE_TOPIC_CODE,
        name: "CreateTopic",
        request: SchemaView {
            fields: seq![
                FieldDef::Identifier {
                    kind_name: "stream_id_kind",
                    len_name: "stream_id_len",
                    value_name: "stream_id_value",
                },
                FieldDef::Text8 { len_name: "name_len", name: "name" },
                FieldDef::U32 { name: "partitions_count" },
                FieldDef::U8 { name: "compression_algorithm" },
                FieldDef::U64 { name: "message_expiry" },
                FieldDef::U64 { name: "max_topic_size" },
                FieldDef::U8 { name: "replication_factor" },
                FieldDef::U32 { name: "topic_id" },
            ],
            required: 6,
        },
        response: SchemaView {
            fields: seq![
                FieldDef::U32 { name: "topic_id" },
                FieldDef::U64 { name: "created_at" },
                FieldDef::Text8 { len_name: "name_len", name: "name" },
                FieldDef::U32 { name: "partitions_count" },
                FieldDef::U64 { name: "size" },
                FieldDef::U64 { name: "messages_count" },
            ],
            required: 6,
        },
    }
}

/// The commands that every catalog starts with, by code.
pub open spec fn standard_commands() -> Map<u32, DescriptorView> {
    map![
        PING_CODE => ping_descriptor(),
        GET_STATS_CODE => get_stats_descriptor(),
        LOGIN_USER_CODE => login_user_descriptor(),
        CREATE_TOPIC_CODE => create_topic_descriptor(),
    ]
}

impl Schema {
    /// The layout of a payload without fields.
    pub fn empty() -> (schema: Schema)
        ensures
            schema@ == empty_schema(),
    {
        Schema { fields: Vec::new(), required: 0 }
    }
}

impl CommandDescriptor {
    /// The descriptor of `Ping`.
    pub fn ping() -> (descriptor: CommandDescriptor)
        ensures
            descriptor@ == ping_descriptor(),
    {
        CommandDescriptor {
            code: PING_CODE,
            name: "Ping",
            request: Schema::empty(),
            response: Schema::empty(),
        }
    }

    /// The descriptor of `GetStats`.
    pub fn get_stats() -> (descriptor: CommandDescriptor)
        ensures
            descriptor@ == get_stats_descriptor(),
    {
        CommandDescriptor {
            code: GET_STATS_CODE,
            name: "GetStats",
            request: Schema::empty(),
            response: Schema::empty(),
        }
    }

    /// The descriptor of `LoginUser`.
    pub fn login_user() -> (descriptor: CommandDescriptor)
        ensures
            descriptor@ == login_user_descriptor(),
    {
        let mut request: Vec<FieldDef> = Vec::new();
        request.push(FieldDef::Text8 { len_name: "username_len", name: "username" });
        request.push(FieldDef::Text8 { len_name: "password_len", name: "password" });
        request.push(FieldDef::Text32 { len_name: "version_len", name: "version" });
        request.push(FieldDef::Text32 { len_name: "context_len", name: "context" });
        let mut response: Vec<FieldDef> = Vec::new();
        response.push(FieldDef::U32 { name: "user_id" });
        assert(request@ =~= login_user_descriptor().request.fields);
        assert(response@ =~= login_user_descriptor().response.fields);
        CommandDescriptor {
            code: LOGIN_USER_CODE,
            name: "LoginUser",
            request: Schema { fields: request, required: 2 },
            response: Schema { fields: response, required: 1 },
        }
    }

    /// The descriptor of `CreateTopic`.
    pub fn create_topic() -> (descriptor: CommandDescriptor)
        ensures
            descriptor@ == create_topic_descriptor(),
    {
        let mut request: Vec<FieldDef> = Vec::new();
        request.push(
            FieldDef::Identifier {
                kind_name: "stream_id_kind",
                len_name: "stream_id_len",
                value_name: "stream_id_value",
            },
        );
        request.push(FieldDef::Text8 { len_name: "name_len", name: "name" });
        request.push(FieldDef::U32 { name: "partitions_count" });
        request.push(FieldDef::U8 { name: "compression_algorithm" });
        request.push(FieldDef::U64 { name: "message_expiry" });
        request.push(FieldDef::U64 { name: "max_topic_size" });
        request.push(FieldDef::U8 { name: "replication_factor" });
        request.push(FieldDef::U32 { name: "topic_id" });
        let mut response: Vec<FieldDef> = Vec::new();
        response.push(FieldDef::U32 { name: "topic_id" });
        response.push(FieldDef::U64 { name: "created_at" });
        response.push(FieldDef::Text8 { len_name: "name_len", name: "name" });
        response.push(FieldDef::U32 { name: "partitions_count" });
        response.push(FieldDef::U64 { name: "size" });
        response.push(FieldDef::U64 { name: "messages_count" });
        assert(request@ =~= create_topic_descriptor().request.fields);
        assert(response@ =~= create_topic_descriptor().response.fields);
        CommandDescriptor {
            code: CREATE_TOPIC_CODE,
            name: "CreateTopic",
            request: Schema { fields: request, required: 6 },
            response: Schema { fields: response, required: 6 },
        }
    }
}

/// A lookup table from command code to command descriptor.
#[derive(Debug)]
pub struct CommandCatalog {
    commands: HashMap<u32, CommandDescriptor>,
}

impl View for CommandCatalog {
    type V = Map<u32, DescriptorView>;

    closed spec fn view(&self) -> Map<u32, DescriptorView> {
        self.commands@.map_values(|d: CommandDescriptor| d@)
    }
}

impl CommandCatalog {
    /// Every descriptor is kept under its own code.
    #[verifier::type_invariant]
    spec fn well_formed(self) -> bool {
        forall|code: u32| #[trigger]
            self.commands@.contains_key(code) ==> self.commands@[code].code == code
    }

    /// A catalog without commands.
    pub fn empty() -> (catalog: CommandCatalog)
        ensures
            catalog@ == Map::<u32, DescriptorView>::empty(),
    {
        let catalog = CommandCatalog { commands: HashMap::new() };
        assert(catalog@ =~= Map::<u32, DescriptorView>::empty());
        catalog
    }

    /// The catalog of the standard commands: `Ping`, `GetStats`, `LoginUser`, `CreateTopic`.
    pub fn standard() -> (catalog: CommandCatalog)
        ensures
            catalog@ == standard_commands(),
    {
        let mut catalog = CommandCatalog::empty();
        catalog.register(CommandDescriptor::ping());
        catalog.register(CommandDescriptor::get_stats());
        catalog.register(CommandDescriptor::login_user());
        catalog.register(CommandDescriptor::create_topic());
        assert(catalog@ =~= standard_commands());
        catalog
    }

    /// Puts `descriptor` into the catalog under its code, in place of any command
    /// that was registered under that code before.
    pub fn register(&mut self, descriptor: CommandDescriptor)
        ensures
            final(self)@ == old(self)@.insert(descriptor.code, descriptor@),
    {
        proof {
            use_type_invariant(&*self);
        }
        let mut commands: HashMap<u32, CommandDescriptor> = HashMap::new();
        core::mem::swap(&mut self.commands, &mut commands);
        let ghost code = descriptor.code;
        let ghost view = descriptor@;
        commands.insert(descriptor.code, descriptor);
        core::mem::swap(&mut self.commands, &mut commands);
        assert(self@ =~= old(self)@.insert(code, view));
    }

    /// The descriptor registered under `code`, if there is one.
    pub fn lookup(&self, code: u32) -> (descriptor: Option<&CommandDescriptor>)
        ensures
            descriptor is Some <==> self@.contains_key(code),
            descriptor matches Some(d) ==> d@ == self@[code] && d.code == code,
    {
        proof {
            use_type_invariant(self);
        }
        self.commands.get(&code)
    }
}

} // verus!
