//! The execution engine: a simplified virtual machine that interprets a
//! transaction's instruction kind against the object store. Execution never
//! fails outright: every error condition is absorbed into the logs.
//!
//! Minted objects carry a randomly drawn identity, so contracts describe a
//! touched object either exactly or as a fresh coin whose identity is left
//! open (`TouchedItem`); everything else — gas, logs, the store — is pinned
//! down exactly.

use vstd::prelude::*;
use vstd::string::StringExecFns;

use crate::messages::ExecutionRequest;
use crate::object::{ObjectData, ObjectDataView, ObjectID, ObjectView, Owner, OwnerView, SuiObject};
use crate::storage::InMemoryObjectStore;
use crate::strutil::{join_semi, join_with_semi, str_eq};
use crate::transaction::TransactionKind;

verus! {

/// What executing one request produced.
#[derive(Debug)]
pub struct ExecutionResult {
    pub gas_used: u64,
    pub touched_objects: Vec<SuiObject>,
    pub logs: Vec<String>,
}

pub struct ExecutionResultView {
    pub gas_used: u64,
    pub touched_objects: Seq<ObjectView>,
    pub logs: Seq<Seq<char>>,
}

impl View for ExecutionResult {
    type V = ExecutionResultView;

    open spec fn view(&self) -> ExecutionResultView {
        ExecutionResultView {
            gas_used: self.gas_used,
            touched_objects: self.touched_objects.deep_view(),
            logs: self.logs.deep_view(),
        }
    }
}

/// The instruction sequence a module call is lowered to.
#[derive(Debug)]
pub struct MoveBytecode {
    pub instructions: Vec<MoveInstruction>,
}

#[derive(Debug)]
pub enum MoveInstruction {
    LoadConst(String),
    CallFunction { module: String, function: String },
    Transfer { object_id: String, recipient: String },
    Return,
}

pub enum MoveInstructionView {
    LoadConst(Seq<char>),
    CallFunction { module: Seq<char>, function: Seq<char> },
    Transfer { object_id: Seq<char>, recipient: Seq<char> },
    Return,
}

impl View for MoveInstruction {
    type V = MoveInstructionView;

    open spec fn view(&self) -> MoveInstructionView {
        match self {
            MoveInstruction::LoadConst(v) => MoveInstructionView::LoadConst(v@),
            MoveInstruction::CallFunction { module, function } => {
                MoveInstructionView::CallFunction { module: module@, function: function@ }
            },
            MoveInstruction::Transfer { object_id, recipient } => {
                MoveInstructionView::Transfer { object_id: object_id@, recipient: recipient@ }
            },
            MoveInstruction::Return => MoveInstructionView::Return,
        }
    }
}

impl DeepView for MoveInstruction {
    type V = MoveInstructionView;

    open spec fn deep_view(&self) -> MoveInstructionView {
        self@
    }
}

impl View for MoveBytecode {
    type V = Seq<MoveInstructionView>;

    open spec fn view(&self) -> Seq<MoveInstructionView> {
        self.instructions.deep_view()
    }
}

// ---------------------------------------------------------------------------
// The cost model and the built-in function handlers
// ---------------------------------------------------------------------------

/// Gas sums saturate instead of wrapping; the saturation point is
/// unreachable for any input that fits in memory.
pub open spec fn sat_add(a: u64, b: u64) -> u64 {
    if a + b > u64::MAX {
        u64::MAX
    } else {
        (a + b) as u64
    }
}

fn sat_add_exec(a: u64, b: u64) -> (r: u64)
    ensures
        r == sat_add(a, b),
{
    if a > u64::MAX - b {
        u64::MAX
    } else {
        a + b
    }
}

pub open spec fn is_builtin(m: Seq<char>, f: Seq<char>, name: Seq<char>) -> bool {
    m == "coin"@ && f == name
}

/// The flat cost a built-in handler charges.
pub open spec fn builtin_gas(m: Seq<char>, f: Seq<char>) -> u64 {
    if is_builtin(m, f, "transfer"@) {
        300
    } else if is_builtin(m, f, "mint"@) {
        200
    } else {
        150
    }
}

/// The one log line a built-in handler emits.
pub open spec fn builtin_log(m: Seq<char>, f: Seq<char>) -> Seq<char> {
    if is_builtin(m, f, "transfer"@) {
        "Coin transfer executed"@
    } else if is_builtin(m, f, "mint"@) {
        "Coin minted"@
    } else {
        "Executed "@ + m + "::"@ + f
    }
}

/// The coin `coin::mint` synthesizes: balance 1000, owned by the fixed mint
/// address, at version 1, under the given fresh identity.
pub open spec fn mint_object(id: Seq<char>) -> ObjectView {
    ObjectView {
        id: id,
        version: 1,
        owner: OwnerView::Address("mint-address"@),
        data: ObjectDataView::Coin { balance: 1000 },
    }
}

/// What a built-in handler creates, given the identity drawn for a mint.
pub open spec fn builtin_touched(m: Seq<char>, f: Seq<char>, fresh: Seq<char>) -> Seq<ObjectView> {
    if is_builtin(m, f, "mint"@) {
        seq![mint_object(fresh)]
    } else {
        Seq::empty()
    }
}

// ---------------------------------------------------------------------------
// The interpreter, as a state machine
// ---------------------------------------------------------------------------

/// A touched object as a contract describes it: exactly this object, or a
/// freshly minted coin whose identity was drawn at random.
pub enum TouchedItem {
    Exact(ObjectView),
    FreshCoin,
}

pub open spec fn touched_matches(t: TouchedItem, o: ObjectView) -> bool {
    match t {
        TouchedItem::Exact(x) => o == x,
        TouchedItem::FreshCoin => {
            &&& o.version == 1
            &&& o.owner == OwnerView::Address("mint-address"@)
            &&& o.data == (ObjectDataView::Coin { balance: 1000 })
        },
    }
}

pub open spec fn touched_all_match(d: Seq<TouchedItem>, o: Seq<ObjectView>) -> bool {
    d.len() == o.len() && forall|i: int| 0 <= i < d.len() ==> touched_matches(#[trigger] d[i], o[i])
}

/// The interpreter's state: the store it may rewrite, the gas and logs so
/// far, and the touched objects described up to minted identities.
#[verifier::ext_equal]
pub struct VmStep {
    pub store: Option<Map<Seq<char>, ObjectView>>,
    pub gas: u64,
    pub logs: Seq<Seq<char>>,
    pub touched: Seq<TouchedItem>,
}

pub open spec fn init_step(store: Option<Map<Seq<char>, ObjectView>>) -> VmStep {
    VmStep { store, gas: 0, logs: Seq::empty(), touched: Seq::empty() }
}

pub open spec fn bump_version(v: u64) -> u64 {
    if v == u64::MAX {
        u64::MAX
    } else {
        (v + 1) as u64
    }
}

pub open spec fn transferred_object(o: ObjectView, recipient: Seq<char>) -> ObjectView {
    ObjectView {
        id: o.id,
        version: bump_version(o.version),
        owner: OwnerView::Address(recipient),
        data: o.data,
    }
}

pub open spec fn instr_transfer_log(object_id: Seq<char>, recipient: Seq<char>) -> Seq<char> {
    "Transferred "@ + object_id + " to "@ + recipient
}

/// One instruction: a flat 50 gas, then the instruction's own effect.
pub open spec fn step(st: VmStep, instr: MoveInstructionView) -> VmStep {
    let charged = VmStep { gas: sat_add(st.gas, 50), ..st };
    match instr {
        MoveInstructionView::LoadConst(v) => VmStep {
            logs: charged.logs.push("Loaded constant: "@ + v),
            ..charged
        },
        MoveInstructionView::CallFunction { module, function } => VmStep {
            gas: sat_add(charged.gas, builtin_gas(module, function)),
            logs: charged.logs.push(builtin_log(module, function)),
            touched: if is_builtin(module, function, "mint"@) {
                charged.touched.push(TouchedItem::FreshCoin)
            } else {
                charged.touched
            },
            ..charged
        },
        MoveInstructionView::Transfer { object_id, recipient } => {
            match charged.store {
                Option::Some(m) => {
                    if m.contains_key(object_id) {
                        let o2 = transferred_object(m[object_id], recipient);
                        VmStep {
                            store: Option::Some(m.insert(object_id, o2)),
                            logs: charged.logs.push(instr_transfer_log(object_id, recipient)),
                            touched: charged.touched.push(TouchedItem::Exact(o2)),
                            ..charged
                        }
                    } else {
                        charged
                    }
                },
                Option::None => charged,
            }
        },
        MoveInstructionView::Return => VmStep {
            logs: charged.logs.push("Function returned"@),
            ..charged
        },
    }
}

/// Runs instructions in order, halting after the first `Return`.
pub open spec fn interp(instrs: Seq<MoveInstructionView>, st: VmStep) -> VmStep
    decreases instrs.len(),
{
    if instrs.len() == 0 {
        st
    } else {
        let st1 = step(st, instrs[0]);
        if instrs[0] is Return {
            st1
        } else {
            interp(instrs.subrange(1, instrs.len() as int), st1)
        }
    }
}

/// Interpretation never discards a configured store.
pub proof fn lemma_interp_store_some(instrs: Seq<MoveInstructionView>, st: VmStep)
    requires
        st.store is Some,
    ensures
        interp(instrs, st).store is Some,
    decreases instrs.len(),
{
    if instrs.len() > 0 {
        let st1 = step(st, instrs[0]);
        assert(st1.store is Some);
        if !(instrs[0] is Return) {
            lemma_interp_store_some(instrs.subrange(1, instrs.len() as int), st1);
        }
    }
}

// ---------------------------------------------------------------------------
// Per-transaction specifications
// ---------------------------------------------------------------------------

pub open spec fn transfer_log(object: Seq<char>, recipient: Seq<char>) -> Seq<char> {
    "Transfer executed: "@ + object + " -> "@ + recipient
}

/// The stand-in object synthesized when the transfer's target cannot be
/// read from a store.
pub open spec fn synthesized_object(object: Seq<char>, recipient: Seq<char>) -> ObjectView {
    ObjectView {
        id: object + "-transferred"@,
        version: 1,
        owner: OwnerView::Address(recipient),
        data: ObjectDataView::Coin { balance: 1 },
    }
}

/// A transfer, exactly: reassign and bump the stored object if present
/// (100 base + 400 execution gas); where the object cannot be read — it is
/// absent from the store, or no store is configured at all — a stand-in
/// object is synthesized rather than failing.
pub open spec fn transfer_spec(
    store: Option<Map<Seq<char>, ObjectView>>,
    object: Seq<char>,
    recipient: Seq<char>,
) -> (Option<Map<Seq<char>, ObjectView>>, ExecutionResultView) {
    match store {
        Option::Some(m) => {
            if m.contains_key(object) {
                let o2 = transferred_object(m[object], recipient);
                (
                    Option::Some(m.insert(object, o2)),
                    ExecutionResultView {
                        gas_used: 500,
                        touched_objects: seq![o2],
                        logs: seq![transfer_log(object, recipient)],
                    },
                )
            } else {
                (
                    Option::Some(m),
                    ExecutionResultView {
                        gas_used: 500,
                        touched_objects: seq![synthesized_object(object, recipient)],
                        logs: seq![transfer_log(object, recipient)],
                    },
                )
            }
        },
        Option::None => (
            Option::None,
            ExecutionResultView {
                gas_used: 500,
                touched_objects: seq![synthesized_object(object, recipient)],
                logs: seq![transfer_log(object, recipient)],
            },
        ),
    }
}

pub open spec fn load_const_instrs(args: Seq<Seq<char>>) -> Seq<MoveInstructionView> {
    args.map_values(|a: Seq<char>| MoveInstructionView::LoadConst(a))
}

/// The lowering of a module call: load each argument, invoke, return.
pub open spec fn parsed_call(m: Seq<char>, f: Seq<char>, args: Seq<Seq<char>>) -> Seq<
    MoveInstructionView,
> {
    load_const_instrs(args) + seq![
        MoveInstructionView::CallFunction { module: m, function: f },
        MoveInstructionView::Return,
    ]
}

pub open spec fn call_header_log(m: Seq<char>, f: Seq<char>) -> Seq<char> {
    "Move call: "@ + m + "::"@ + f
}

pub open spec fn call_args_log(args: Seq<Seq<char>>) -> Seq<char> {
    "Arguments: ["@ + join_semi(args) + "]"@
}

// ---------------------------------------------------------------------------
// The executor
// ---------------------------------------------------------------------------

/// The virtual machine; it may own an object store, or run storeless and
/// synthesize stand-ins.
pub struct MoveVMExecutor {
    pub(crate) object_store: Option<InMemoryObjectStore>,
}

impl MoveVMExecutor {
    /// The store's content, if one is configured.
    pub closed spec fn store_model(&self) -> Option<Map<Seq<char>, ObjectView>> {
        match self.object_store {
            Option::Some(st) => Option::Some(st.objects()),
            Option::None => Option::None,
        }
    }

    pub closed spec fn wf(&self) -> bool {
        match self.object_store {
            Option::Some(st) => st.wf(),
            Option::None => true,
        }
    }

    /// A copy of the object stored under `id`, if the VM has a store and it
    /// holds one.
    pub fn get_object(&self, id: &str) -> (r: Option<SuiObject>)
        requires
            self.wf(),
        ensures
            match self.store_model() {
                Option::Some(m) => match r {
                    Option::Some(o) => m.contains_key(id@) && o@ == m[id@],
                    Option::None => !m.contains_key(id@),
                },
                Option::None => r is None,
            },
    {
        match &self.object_store {
            Some(store) => store.get_object(id),
            None => None,
        }
    }

    /// Stores `object` in the VM's store; without a store this is a no-op.
    pub fn put_object(&mut self, object: SuiObject)
        requires
            old(self).wf(),
        ensures
            final(self).wf(),
            final(self).store_model() == match old(self).store_model() {
                Option::Some(m) => Option::Some(m.insert(object.id@, object@)),
                Option::None => Option::<Map<Seq<char>, ObjectView>>::None,
            },
    {
        match &mut self.object_store {
            Some(store) => store.put_object(object),
            None => {},
        }
    }

    /// A VM without a store.
    pub fn new() -> (r: Self)
        ensures
            r.wf(),
            r.store_model() is None,
    {
        MoveVMExecutor { object_store: None }
    }

    /// A VM executing against the given store.
    pub fn with_object_store(store: InMemoryObjectStore) -> (r: Self)
        requires
            store.wf(),
        ensures
            r.wf(),
            r.store_model() == Some(store.objects()),
    {
        MoveVMExecutor { object_store: Some(store) }
    }

    /// Executes a transfer of `object` to `recipient`, exactly as
    /// `transfer_spec` says.
    fn execute_transfer(&mut self, object: &ObjectID, recipient: &str) -> (r: ExecutionResult)
        requires
            old(self).wf(),
        ensures
            final(self).wf(),
            final(self).store_model() == transfer_spec(
                old(self).store_model(),
                object@,
                recipient@,
            ).0,
            r@ == transfer_spec(old(self).store_model(), object@, recipient@).1,
    {
        let mut log = String::from_str("Transfer executed: ");
        log.append(object.0.as_str());
        log.append(" -> ");
        log.append(recipient);
        proof {
            assert(log@ =~= transfer_log(object@, recipient@));
        }
        match &mut self.object_store {
            Some(store) => {
                proof {
                    store.lemma_keys_are_ids();
                }
                match store.get_object(object.0.as_str()) {
                    Some(obj) => {
                        let new_version = if obj.version == u64::MAX {
                            u64::MAX
                        } else {
                            obj.version + 1
                        };
                        let new_obj = SuiObject {
                            id: obj.id,
                            version: new_version,
                            owner: Owner::Address(recipient.to_owned()),
                            data: obj.data,
                        };
                        proof {
                            assert(new_obj@ == transferred_object(
                                old(self).store_model()->Some_0[object@],
                                recipient@,
                            ));
                        }
                        store.put_object(new_obj.clone());
                        let r = ExecutionResult {
                            gas_used: 500,
                            touched_objects: vec![new_obj],
                            logs: vec![log],
                        };
                        proof {
                            assert(r@.touched_objects =~= transfer_spec(
                                old(self).store_model(),
                                object@,
                                recipient@,
                            ).1.touched_objects);
                            assert(r@.logs =~= seq![transfer_log(object@, recipient@)]);
                        }
                        r
                    },
                    None => {
                        let mut synth_id = object.0.clone();
                        synth_id.append("-transferred");
                        let new_obj = SuiObject::new(
                            ObjectID(synth_id),
                            Owner::Address(recipient.to_owned()),
                            ObjectData::Coin { balance: 1 },
                        );
                        proof {
                            assert(new_obj@ == synthesized_object(object@, recipient@));
                        }
                        let r = ExecutionResult {
                            gas_used: 500,
                            touched_objects: vec![new_obj],
                            logs: vec![log],
                        };
                        proof {
                            assert(r@.touched_objects =~= seq![
                                synthesized_object(object@, recipient@),
                            ]);
                            assert(r@.logs =~= seq![transfer_log(object@, recipient@)]);
                        }
                        r
                    },
                }
            },
            None => {
                let mut synth_id = object.0.clone();
                synth_id.append("-transferred");
                let new_obj = SuiObject::new(
                    ObjectID(synth_id),
                    Owner::Address(recipient.to_owned()),
                    ObjectData::Coin { balance: 1 },
                );
                proof {
                    assert(new_obj@ == synthesized_object(object@, recipient@));
                }
                let r = ExecutionResult {
                    gas_used: 500,
                    touched_objects: vec![new_obj],
                    logs: vec![log],
                };
                proof {
                    assert(r@.touched_objects =~= seq![synthesized_object(object@, recipient@)]);
                    assert(r@.logs =~= seq![transfer_log(object@, recipient@)]);
                }
                r
            },
        }
    }

    /// The built-in handler for `(module, function)`; the identity a mint
    /// gives its new coin is passed in by the caller, so the result is an
    /// exact function of the arguments.
    fn execute_function(
        &self,
        module: &str,
        function: &str,
        _stack: &Vec<String>,
        fresh: ObjectID,
    ) -> (r: ExecutionResult)
        ensures
            r.gas_used == builtin_gas(module@, function@),
            r@.logs == seq![builtin_log(module@, function@)],
            r@.touched_objects == builtin_touched(module@, function@, fresh@),
    {
        let ghost fv = fresh@;
        proof {
            reveal_strlit("transfer");
            reveal_strlit("mint");
        }
        if str_eq(module, "coin") && str_eq(function, "transfer") {
            let r = ExecutionResult {
                gas_used: 300,
                touched_objects: Vec::new(),
                logs: vec!["Coin transfer executed".to_owned()],
            };
            proof {
                assert("transfer"@.len() != "mint"@.len());
                assert(!is_builtin(module@, function@, "mint"@));
                assert(r@.logs[0] == builtin_log(module@, function@));
                assert(r@.logs =~= seq![builtin_log(module@, function@)]);
                assert(r@.touched_objects =~= builtin_touched(module@, function@, fv));
            }
            r
        } else if str_eq(module, "coin") && str_eq(function, "mint") {
            let coin = SuiObject::new(
                fresh,
                Owner::Address("mint-address".to_owned()),
                ObjectData::Coin { balance: 1000 },
            );
            let ghost cv = coin@;
            proof {
                assert(cv == mint_object(fv));
            }
            let r = ExecutionResult {
                gas_used: 200,
                touched_objects: vec![coin],
                logs: vec!["Coin minted".to_owned()],
            };
            proof {
                assert(r@.logs[0] == builtin_log(module@, function@));
                assert(r@.touched_objects[0] == cv);
                assert(r@.logs =~= seq![builtin_log(module@, function@)]);
                assert(r@.touched_objects =~= builtin_touched(module@, function@, fv));
            }
            r
        } else {
            let mut log = String::from_str("Executed ");
            log.append(module);
            log.append("::");
            log.append(function);
            let r = ExecutionResult {
                gas_used: 150,
                touched_objects: Vec::new(),
                logs: vec![log],
            };
            proof {
                assert(log@ =~= builtin_log(module@, function@));
                assert(r@.logs[0] == log@);
                assert(r@.logs =~= seq![builtin_log(module@, function@)]);
                assert(r@.touched_objects =~= builtin_touched(module@, function@, fv));
            }
            r
        }
    }

    /// Lowers a call to its instruction sequence.
    fn parse_move_call(&self, module: &str, function: &str, args: &Vec<String>) -> (r:
        MoveBytecode)
        ensures
            r@ == parsed_call(module@, function@, args.deep_view()),
    {
        let mut instructions: Vec<MoveInstruction> = Vec::new();
        let ghost model = args.deep_view();
        let mut i: usize = 0;
        proof {
            assert(instructions.deep_view() =~= load_const_instrs(model.subrange(0, 0)));
        }
        while i < args.len()
            invariant
                0 <= i <= args.len(),
                model == args.deep_view(),
                model.len() == args.len(),
                instructions.deep_view() == load_const_instrs(model.subrange(0, i as int)),
            decreases args.len() - i,
        {
            let ghost prev = instructions.deep_view();
            instructions.push(MoveInstruction::LoadConst(args[i].clone()));
            proof {
                assert(instructions.deep_view() =~= prev.push(
                    MoveInstructionView::LoadConst(model[i as int]),
                ));
                assert(instructions.deep_view() =~= load_const_instrs(
                    model.subrange(0, i as int + 1),
                ));
            }
            i = i + 1;
        }
        proof {
            assert(model.subrange(0, model.len() as int) =~= model);
        }
        let ghost before_tail = instructions.deep_view();
        instructions.push(
            MoveInstruction::CallFunction {
                module: module.to_owned(),
                function: function.to_owned(),
            },
        );
        instructions.push(MoveInstruction::Return);
        let r = MoveBytecode { instructions };
        proof {
            assert(r@ =~= before_tail + seq![
                MoveInstructionView::CallFunction { module: module@, function: function@ },
                MoveInstructionView::Return,
            ]);
            assert(r@ =~= parsed_call(module@, function@, model));
        }
        r
    }

    /// Interprets a lowered instruction sequence on a small operand stack,
    /// halting at the first `Return`; the outcome is `interp` of the
    /// instructions, with each minted coin's identity left open.
    #[verifier::rlimit(100)]
    fn interpret_bytecode(&mut self, bytecode: &MoveBytecode) -> (r: ExecutionResult)
        requires
            old(self).wf(),
        ensures
            final(self).wf(),
            ({
                let st = interp(bytecode@, init_step(old(self).store_model()));
                &&& final(self).store_model() == st.store
                &&& r.gas_used == st.gas
                &&& r@.logs == st.logs
                &&& touched_all_match(st.touched, r@.touched_objects)
            }),
    {
        let ghost iv = bytecode@;
        let mut stack: Vec<String> = Vec::new();
        let mut gas_used: u64 = 0;
        let mut logs: Vec<String> = Vec::new();
        let mut touched_objects: Vec<SuiObject> = Vec::new();
        let ghost mut descrs: Seq<TouchedItem> = Seq::empty();
        let mut i: usize = 0;
        let n = bytecode.instructions.len();
        proof {
            assert(logs.deep_view() =~= Seq::<Seq<char>>::empty());
            assert(touched_objects.deep_view() =~= Seq::<ObjectView>::empty());
            assert(iv.subrange(0, iv.len() as int) =~= iv);
        }
        while i < n
            invariant
                0 <= i <= n,
                n == bytecode.instructions@.len(),
                iv == bytecode@,
                self.wf(),
                touched_all_match(descrs, touched_objects.deep_view()),
                interp(iv, init_step(old(self).store_model())) == interp(
                    iv.subrange(i as int, iv.len() as int),
                    VmStep {
                        store: self.store_model(),
                        gas: gas_used,
                        logs: logs.deep_view(),
                        touched: descrs,
                    },
                ),
            decreases n - i,
        {
            let ghost cur = VmStep {
                store: self.store_model(),
                gas: gas_used,
                logs: logs.deep_view(),
                touched: descrs,
            };
            let ghost rest = iv.subrange(i as int, iv.len() as int);
            proof {
                assert(rest[0] == iv[i as int]);
                assert(rest.subrange(1, rest.len() as int) =~= iv.subrange(
                    i as int + 1,
                    iv.len() as int,
                ));
                assert(bytecode.instructions@[i as int]@ == iv[i as int]);
            }
            gas_used = sat_add_exec(gas_used, 50);
            let instruction = &bytecode.instructions[i];
            match instruction {
                MoveInstruction::LoadConst(value) => {
                    stack.push(value.clone());
                    let mut line = String::from_str("Loaded constant: ");
                    line.append(value.as_str());
                    let ghost prev_logs = logs.deep_view();
                    logs.push(line);
                    proof {
                        assert(logs.deep_view() =~= prev_logs.push(
                            "Loaded constant: "@ + value@,
                        ));
                        assert(VmStep {
                            store: self.store_model(),
                            gas: gas_used,
                            logs: logs.deep_view(),
                            touched: descrs,
                        } =~~= step(cur, iv[i as int]));
                    }
                },
                MoveInstruction::CallFunction { module, function } => {
                    let fresh = ObjectID::random();
                    let ghost fv = fresh@;
                    let mut call_result = self.execute_function(
                        module.as_str(),
                        function.as_str(),
                        &stack,
                        fresh,
                    );
                    let ghost crv = call_result@;
                    gas_used = sat_add_exec(gas_used, call_result.gas_used);
                    let ghost prev_logs = logs.deep_view();
                    proof {
                        assert(crv.logs.len() == 1);
                        assert(call_result.logs@.len() == 1);
                    }
                    let line = call_result.logs.remove(0);
                    logs.push(line);
                    proof {
                        assert(crv.logs[0] == builtin_log(module@, function@));
                        assert(line@ == crv.logs[0]);
                        assert(logs.deep_view() =~= prev_logs.push(
                            builtin_log(module@, function@),
                        ));
                    }
                    if call_result.touched_objects.len() > 0 {
                        let ghost prev_touched = touched_objects.deep_view();
                        let created = call_result.touched_objects.remove(0);
                        let ghost cv = created@;
                        proof {
                            assert(crv.touched_objects.len() > 0);
                            assert(is_builtin(module@, function@, "mint"@));
                            assert(crv.touched_objects[0] == mint_object(fv));
                            assert(cv == crv.touched_objects[0]);
                        }
                        touched_objects.push(created);
                        proof {
                            descrs = descrs.push(TouchedItem::FreshCoin);
                            assert(touched_objects.deep_view() =~= prev_touched.push(cv));
                            assert(touched_matches(TouchedItem::FreshCoin, cv));
                        }
                    } else {
                        proof {
                            assert(crv.touched_objects.len() == 0);
                            assert(!is_builtin(module@, function@, "mint"@)) by {
                                if is_builtin(module@, function@, "mint"@) {
                                    assert(crv.touched_objects == seq![mint_object(fv)]);
                                }
                            }
                        }
                    }
                    proof {
                        assert(VmStep {
                            store: self.store_model(),
                            gas: gas_used,
                            logs: logs.deep_view(),
                            touched: descrs,
                        } =~~= step(cur, iv[i as int]));
                    }
                },
                MoveInstruction::Transfer { object_id, recipient } => {
                    match &mut self.object_store {
                        Some(store) => {
                            proof {
                                store.lemma_keys_are_ids();
                            }
                            match store.get_object(object_id.as_str()) {
                                Some(obj) => {
                                    let new_version = if obj.version == u64::MAX {
                                        u64::MAX
                                    } else {
                                        obj.version + 1
                                    };
                                    let new_obj = SuiObject {
                                        id: obj.id,
                                        version: new_version,
                                        owner: Owner::Address(recipient.clone()),
                                        data: obj.data,
                                    };
                                    let ghost nov = new_obj@;
                                    proof {
                                        assert(nov == transferred_object(
                                            cur.store->Some_0[object_id@],
                                            recipient@,
                                        ));
                                        assert(nov.id == object_id@);
                                    }
                                    store.put_object(new_obj.clone());
                                    let ghost prev_touched = touched_objects.deep_view();
                                    touched_objects.push(new_obj);
                                    let mut line = String::from_str("Transferred ");
                                    line.append(object_id.as_str());
                                    line.append(" to ");
                                    line.append(recipient.as_str());
                                    let ghost prev_logs = logs.deep_view();
                                    logs.push(line);
                                    proof {
                                        descrs = descrs.push(TouchedItem::Exact(nov));
                                        assert(touched_objects.deep_view() =~= prev_touched.push(
                                            nov,
                                        ));
                                        assert(logs.deep_view() =~= prev_logs.push(
                                            instr_transfer_log(object_id@, recipient@),
                                        ));
                                    }
                                },
                                None => {},
                            }
                        },
                        None => {},
                    }
                    proof {
                        assert(VmStep {
                            store: self.store_model(),
                            gas: gas_used,
                            logs: logs.deep_view(),
                            touched: descrs,
                        } =~~= step(cur, iv[i as int]));
                    }
                },
                MoveInstruction::Return => {
                    let ghost prev_logs = logs.deep_view();
                    logs.push("Function returned".to_owned());
                    let ghost fin = VmStep {
                        store: self.store_model(),
                        gas: gas_used,
                        logs: logs.deep_view(),
                        touched: descrs,
                    };
                    proof {
                        assert(logs.deep_view() =~= prev_logs.push("Function returned"@));
                        assert(fin =~~= step(cur, iv[i as int]));
                        assert(interp(rest, cur) == fin);
                        assert(interp(iv, init_step(old(self).store_model())) == fin);
                    }
                    let r = ExecutionResult { gas_used, touched_objects, logs };
                    return r;
                },
            }
            i = i + 1;
        }
        proof {
            assert(iv.subrange(i as int, iv.len() as int).len() == 0);
        }
        let r = ExecutionResult { gas_used, touched_objects, logs };
        r
    }

    /// Executes a module call: lowers it, interprets it, and wraps the
    /// outcome with the call header, the argument log, and a 200 gas
    /// surcharge.
    fn execute_move_call(
        &mut self,
        _package: &ObjectID,
        module: &str,
        function: &str,
        arguments: &Vec<String>,
    ) -> (r: ExecutionResult)
        requires
            old(self).wf(),
        ensures
            final(self).wf(),
            ({
                let st = interp(
                    parsed_call(module@, function@, arguments.deep_view()),
                    init_step(old(self).store_model()),
                );
                &&& final(self).store_model() == st.store
                &&& r.gas_used == sat_add(st.gas, 200)
                &&& r@.logs == seq![
                    call_header_log(module@, function@),
                    call_args_log(arguments.deep_view()),
                    join_semi(st.logs),
                ]
                &&& touched_all_match(st.touched, r@.touched_objects)
            }),
    {
        let bytecode = self.parse_move_call(module, function, arguments);
        let result = self.interpret_bytecode(&bytecode);

        let mut header = String::from_str("Move call: ");
        header.append(module);
        header.append("::");
        header.append(function);
        let mut args_line = String::from_str("Arguments: [");
        let joined_args = join_with_semi(arguments);
        args_line.append(joined_args.as_str());
        args_line.append("]");
        let joined_logs = join_with_semi(&result.logs);
        let logs = vec![header, args_line, joined_logs];
        let r = ExecutionResult {
            gas_used: sat_add_exec(result.gas_used, 200),
            touched_objects: result.touched_objects,
            logs,
        };
        proof {
            let st = interp(
                parsed_call(module@, function@, arguments.deep_view()),
                init_step(old(self).store_model()),
            );
            assert(r@.logs =~= seq![
                call_header_log(module@, function@),
                call_args_log(arguments.deep_view()),
                join_semi(st.logs),
            ]);
        }
        r
    }

    /// Executes one request against the store: a transfer as
    /// `transfer_spec` says, a call as the interpretation of its lowering.
    pub fn execute(&mut self, request: &ExecutionRequest) -> (r: ExecutionResult)
        requires
            old(self).wf(),
        ensures
            final(self).wf(),
            match request.tx.payload.kind {
                TransactionKind::Transfer { object, recipient } => {
                    &&& final(self).store_model() == transfer_spec(
                        old(self).store_model(),
                        object@,
                        recipient@,
                    ).0
                    &&& r@ == transfer_spec(old(self).store_model(), object@, recipient@).1
                },
                TransactionKind::Call { package, module, function, arguments } => {
                    let st = interp(
                        parsed_call(module@, function@, arguments.deep_view()),
                        init_step(old(self).store_model()),
                    );
                    &&& final(self).store_model() == st.store
                    &&& r.gas_used == sat_add(st.gas, 200)
                    &&& r@.logs == seq![
                        call_header_log(module@, function@),
                        call_args_log(arguments.deep_view()),
                        join_semi(st.logs),
                    ]
                    &&& touched_all_match(st.touched, r@.touched_objects)
                },
            },
    {
        match &request.tx.payload.kind {
            TransactionKind::Transfer { object, recipient } => {
                self.execute_transfer(object, recipient.as_str())
            },
            TransactionKind::Call { package, module, function, arguments } => {
                self.execute_move_call(package, module.as_str(), function.as_str(), arguments)
            },
        }
    }
}

impl Default for MoveVMExecutor {
    fn default() -> (r: Self)
        ensures
            r.wf(),
            r.store_model() is None,
    {
        MoveVMExecutor::new()
    }
}




} // verus!
