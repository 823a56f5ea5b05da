//! Blocks: a kernel with its named stream and message ports. Stream ports are
//! declared with an item size and bound, at most once, to one end of a
//! connection.

use vstd::prelude::*;
use crate::buffer::{BufferReader, BufferWriter, ReaderView, WriterView};
use crate::message::AsyncMessage;

verus! {

/// What a stream input is.
pub struct InputView {
    pub name: Seq<char>,
    pub item_size: usize,
    pub reader: Option<ReaderView>,
}

/// What a stream output is.
pub struct OutputView {
    pub name: Seq<char>,
    pub item_size: usize,
    pub writer: Option<WriterView>,
}

/// The stream ports of a block, in the order of their declaration.
pub struct StreamIoView {
    pub inputs: Seq<InputView>,
    pub outputs: Seq<OutputView>,
}

/// The message ports of a block, by name, in the order of their declaration.
pub struct MessageIoView {
    pub inputs: Seq<Seq<char>>,
    pub outputs: Seq<Seq<char>>,
}

/// Whether `at` is the first position of `names` that holds `name`.
pub open spec fn is_first_named(names: Seq<Seq<char>>, name: Seq<char>, at: int) -> bool {
    &&& 0 <= at < names.len()
    &&& names[at] == name
    &&& forall|j: int| 0 <= j < at ==> names[j] != name
}

/// The first position of `names` that holds `name`, if any does.
pub open spec fn named(names: Seq<Seq<char>>, name: Seq<char>) -> Option<int> {
    if exists|at: int| is_first_named(names, name, at) {
        Some(choose|at: int| is_first_named(names, name, at))
    } else {
        None
    }
}

/// The first position is the only one that is first.
pub proof fn lemma_named(names: Seq<Seq<char>>, name: Seq<char>, at: int)
    requires
        is_first_named(names, name, at),
    ensures
        named(names, name) == Some(at),
{
    let other = choose|at: int| is_first_named(names, name, at);
    if other < at {
        assert(names[other] != name);
    }
    if at < other {
        assert(names[at] != name);
    }
}

/// Without an occurrence there is no position.
pub proof fn lemma_not_named(names: Seq<Seq<char>>, name: Seq<char>)
    requires
        forall|j: int| 0 <= j < names.len() ==> names[j] != name,
    ensures
        named(names, name) is None,
{
}

impl StreamIoView {
    /// The names of the inputs.
    pub open spec fn input_names(self) -> Seq<Seq<char>> {
        self.inputs.map_values(|p: InputView| p.name)
    }

    /// The names of the outputs.
    pub open spec fn output_names(self) -> Seq<Seq<char>> {
        self.outputs.map_values(|p: OutputView| p.name)
    }

    /// Every port is bound.
    pub open spec fn connected(self) -> bool {
        &&& forall|i: int| 0 <= i < self.inputs.len() ==> (#[trigger] self.inputs[i]).reader is Some
        &&& forall|i: int|
            0 <= i < self.outputs.len() ==> (#[trigger] self.outputs[i]).writer is Some
    }
}

/// A stream input of a block.
#[derive(Debug)]
pub struct StreamInput {
    name: String,
    item_size: usize,
    reader: Option<BufferReader>,
}

/// A stream output of a block.
#[derive(Debug)]
pub struct StreamOutput {
    name: String,
    item_size: usize,
    writer: Option<BufferWriter>,
}

impl View for StreamInput {
    type V = InputView;

    closed spec fn view(&self) -> InputView {
        InputView {
            name: self.name@,
            item_size: self.item_size,
            reader: match self.reader {
                Some(r) => Some(r@),
                None => None,
            },
        }
    }
}

impl View for StreamOutput {
    type V = OutputView;

    closed spec fn view(&self) -> OutputView {
        OutputView {
            name: self.name@,
            item_size: self.item_size,
            writer: match self.writer {
                Some(w) => Some(w@),
                None => None,
            },
        }
    }
}

impl StreamInput {
    /// An unbound input called `name` for items of `item_size` bytes.
    pub fn new(name: &str, item_size: usize) -> (port: StreamInput)
        ensures
            port@ == (InputView { name: name@, item_size, reader: None }),
    {
        StreamInput { name: name.to_owned(), item_size, reader: None }
    }

    /// The size of one item, in bytes.
    pub fn item_size(&self) -> (n: usize)
        ensures
            n == self@.item_size,
    {
        self.item_size
    }

    /// Whether the input is bound to a reader.
    pub fn is_bound(&self) -> (bound: bool)
        ensures
            bound == self@.reader is Some,
    {
        self.reader.is_some()
    }

    /// Whether the input is called `name`.
    pub fn is_named(&self, name: &String) -> (same: bool)
        ensures
            same == (self@.name == name@),
    {
        self.name == *name
    }

    /// Binds the input to `reader`.
    pub fn bind(&mut self, reader: BufferReader)
        ensures
            final(self)@ == (InputView { reader: Some(reader@), ..old(self)@ }),
    {
        self.reader = Some(reader);
    }

    /// Unbinds the input and hands its reader out, to whoever runs the block.
    pub fn take_reader(&mut self) -> (reader: Option<BufferReader>)
        ensures
            final(self)@ == (InputView { reader: None, ..old(self)@ }),
            old(self)@.reader is Some ==> reader is Some && reader->0@ == old(self)@.reader->0,
            old(self)@.reader is None ==> reader is None,
    {
        let mut taken: Option<BufferReader> = None;
        core::mem::swap(&mut self.reader, &mut taken);
        taken
    }

    /// The reader the input is bound to.
    pub fn reader(&mut self) -> (reader: Option<&mut BufferReader>)
        ensures
            old(self)@.reader is None ==> reader is None && *final(self) == *old(self),
            old(self)@.reader is Some ==> reader is Some && (*reader->0)@ == old(self)@.reader->0
                && final(self)@ == (InputView {
                reader: Some((*final(reader->0))@),
                ..old(self)@
            }),
    {
        self.reader.as_mut()
    }
}

impl StreamOutput {
    /// An unbound output called `name` for items of `item_size` bytes.
    pub fn new(name: &str, item_size: usize) -> (port: StreamOutput)
        ensures
            port@ == (OutputView { name: name@, item_size, writer: None }),
    {
        StreamOutput { name: name.to_owned(), item_size, writer: None }
    }

    /// The size of one item, in bytes.
    pub fn item_size(&self) -> (n: usize)
        ensures
            n == self@.item_size,
    {
        self.item_size
    }

    /// Whether the output is bound to a writer.
    pub fn is_bound(&self) -> (bound: bool)
        ensures
            bound == self@.writer is Some,
    {
        self.writer.is_some()
    }

    /// Whether the output is called `name`.
    pub fn is_named(&self, name: &String) -> (same: bool)
        ensures
            same == (self@.name == name@),
    {
        self.name == *name
    }

    /// Binds the output to `writer`.
    pub fn bind(&mut self, writer: BufferWriter)
        ensures
            final(self)@ == (OutputView { writer: Some(writer@), ..old(self)@ }),
    {
        self.writer = Some(writer);
    }

    /// Unbinds the output and hands its writer out, to whoever runs the block.
    pub fn take_writer(&mut self) -> (writer: Option<BufferWriter>)
        ensures
            final(self)@ == (OutputView { writer: None, ..old(self)@ }),
            old(self)@.writer is Some ==> writer is Some && writer->0@ == old(self)@.writer->0,
            old(self)@.writer is None ==> writer is None,
    {
        let mut taken: Option<BufferWriter> = None;
        core::mem::swap(&mut self.writer, &mut taken);
        taken
    }

    /// The writer the output is bound to.
    pub fn writer(&mut self) -> (writer: Option<&mut BufferWriter>)
        ensures
            old(self)@.writer is None ==> writer is None && *final(self) == *old(self),
            old(self)@.writer is Some ==> writer is Some && (*writer->0)@ == old(self)@.writer->0
                && final(self)@ == (OutputView {
                writer: Some((*final(writer->0))@),
                ..old(self)@
            }),
    {
        self.writer.as_mut()
    }
}

/// The stream ports of a block.
#[derive(Debug)]
pub struct StreamIo {
    inputs: Vec<StreamInput>,
    outputs: Vec<StreamOutput>,
}

impl View for StreamIo {
    type V = StreamIoView;

    closed spec fn view(&self) -> StreamIoView {
        StreamIoView {
            inputs: self.inputs@.map_values(|p: StreamInput| p@),
            outputs: self.outputs@.map_values(|p: StreamOutput| p@),
        }
    }
}

impl StreamIo {
    /// Number of inputs.
    pub fn inputs_len(&self) -> (n: usize)
        ensures
            n == self@.inputs.len(),
    {
        self.inputs.len()
    }

    /// Number of outputs.
    pub fn outputs_len(&self) -> (n: usize)
        ensures
            n == self@.outputs.len(),
    {
        self.outputs.len()
    }

    /// Whether every stream port is bound.
    pub fn is_connected(&self) -> (all: bool)
        ensures
            all == self@.connected(),
    {
        let mut i: usize = 0;
        while i < self.inputs.len()
            invariant
                i <= self.inputs@.len(),
                forall|j: int| 0 <= j < i ==> (#[trigger] self@.inputs[j]).reader is Some,
            decreases self.inputs@.len() - i,
        {
            if !self.inputs[i].is_bound() {
                assert(self@.inputs[i as int].reader is None);
                return false;
            }
            i = i + 1;
        }
        let mut k: usize = 0;
        while k < self.outputs.len()
            invariant
                k <= self.outputs@.len(),
                forall|j: int|
                    0 <= j < self@.inputs.len() ==> (#[trigger] self@.inputs[j]).reader is Some,
                forall|j: int| 0 <= j < k ==> (#[trigger] self@.outputs[j]).writer is Some,
            decreases self.outputs@.len() - k,
        {
            if !self.outputs[k].is_bound() {
                assert(self@.outputs[k as int].writer is None);
                return false;
            }
            k = k + 1;
        }
        true
    }

    /// The index of the first input called `name`.
    pub fn input_name_to_id(&self, name: &str) -> (id: Option<usize>)
        ensures
            id is Some <==> named(self@.input_names(), name@) is Some,
            id is Some ==> id->0 == named(self@.input_names(), name@)->0,
    {
        let wanted: String = name.to_owned();
        let ghost names = self@.input_names();
        let mut i: usize = 0;
        while i < self.inputs.len()
            invariant
                i <= self.inputs@.len(),
                names == self@.input_names(),
                wanted@ == name@,
                forall|j: int| 0 <= j < i ==> names[j] != name@,
            decreases self.inputs@.len() - i,
        {
            if self.inputs[i].is_named(&wanted) {
                proof {
                    lemma_named(names, name@, i as int);
                }
                return Some(i);
            }
            i = i + 1;
        }
        proof {
            lemma_not_named(names, name@);
        }
        None
    }

    /// The index of the first output called `name`.
    pub fn output_name_to_id(&self, name: &str) -> (id: Option<usize>)
        ensures
            id is Some <==> named(self@.output_names(), name@) is Some,
            id is Some ==> id->0 == named(self@.output_names(), name@)->0,
    {
        let wanted: String = name.to_owned();
        let ghost names = self@.output_names();
        let mut i: usize = 0;
        while i < self.outputs.len()
            invariant
                i <= self.outputs@.len(),
                names == self@.output_names(),
                wanted@ == name@,
                forall|j: int| 0 <= j < i ==> names[j] != name@,
            decreases self.outputs@.len() - i,
        {
            if self.outputs[i].is_named(&wanted) {
                proof {
                    lemma_named(names, name@, i as int);
                }
                return Some(i);
            }
            i = i + 1;
        }
        proof {
            lemma_not_named(names, name@);
        }
        None
    }

    /// Input `id`, to read.
    pub fn input_ref(&self, id: usize) -> (port: &StreamInput)
        requires
            id < self@.inputs.len(),
        ensures
            port@ == self@.inputs[id as int],
    {
        &self.inputs[id]
    }

    /// Output `id`, to read.
    pub fn output_ref(&self, id: usize) -> (port: &StreamOutput)
        requires
            id < self@.outputs.len(),
        ensures
            port@ == self@.outputs[id as int],
    {
        &self.outputs[id]
    }

    /// Input `id`.
    pub fn input(&mut self, id: usize) -> (port: &mut StreamInput)
        requires
            id < old(self)@.inputs.len(),
        ensures
            (*port)@ == old(self)@.inputs[id as int],
            final(self)@ == (StreamIoView {
                inputs: old(self)@.inputs.update(id as int, (*final(port))@),
                ..old(self)@
            }),
    {
        let ghost before = self.inputs@;
        let port = &mut self.inputs[id];
        proof {
            assert(after_borrow(self.inputs)@ == before.update(id as int, *final(port)));
            assert(after_borrow(self.inputs)@.map_values(|p: StreamInput| p@) =~= before.map_values(
                |p: StreamInput| p@,
            ).update(id as int, (*final(port))@));
        }
        port
    }

    /// Output `id`.
    pub fn output(&mut self, id: usize) -> (port: &mut StreamOutput)
        requires
            id < old(self)@.outputs.len(),
        ensures
            (*port)@ == old(self)@.outputs[id as int],
            final(self)@ == (StreamIoView {
                outputs: old(self)@.outputs.update(id as int, (*final(port))@),
                ..old(self)@
            }),
    {
        let ghost before = self.outputs@;
        let port = &mut self.outputs[id];
        proof {
            assert(after_borrow(self.outputs)@ == before.update(id as int, *final(port)));
            assert(after_borrow(self.outputs)@.map_values(|p: StreamOutput| p@)
                =~= before.map_values(|p: StreamOutput| p@).update(id as int, (*final(port))@));
        }
        port
    }
}

/// Declares the stream ports of a block, one at a time.
#[derive(Debug)]
pub struct StreamIoBuilder {
    inputs: Vec<StreamInput>,
    outputs: Vec<StreamOutput>,
}

impl View for StreamIoBuilder {
    type V = StreamIoView;

    closed spec fn view(&self) -> StreamIoView {
        StreamIoView {
            inputs: self.inputs@.map_values(|p: StreamInput| p@),
            outputs: self.outputs@.map_values(|p: StreamOutput| p@),
        }
    }
}

impl StreamIoBuilder {
    /// No ports yet.
    pub fn new() -> (builder: StreamIoBuilder)
        ensures
            builder@ == (StreamIoView { inputs: Seq::empty(), outputs: Seq::empty() }),
    {
        let builder = StreamIoBuilder { inputs: Vec::new(), outputs: Vec::new() };
        assert(builder@.inputs =~= Seq::empty());
        assert(builder@.outputs =~= Seq::empty());
        builder
    }

    /// Declares one more input, unbound.
    pub fn add_input(self, name: &str, item_size: usize) -> (builder: StreamIoBuilder)
        ensures
            builder@ == (StreamIoView {
                inputs: self@.inputs.push(InputView { name: name@, item_size, reader: None }),
                ..self@
            }),
    {
        let mut builder = self;
        builder.inputs.push(StreamInput::new(name, item_size));
        assert(builder@.inputs =~= self@.inputs.push(
            InputView { name: name@, item_size, reader: None },
        ));
        builder
    }

    /// Declares one more output, unbound.
    pub fn add_output(self, name: &str, item_size: usize) -> (builder: StreamIoBuilder)
        ensures
            builder@ == (StreamIoView {
                outputs: self@.outputs.push(OutputView { name: name@, item_size, writer: None }),
                ..self@
            }),
    {
        let mut builder = self;
        builder.outputs.push(StreamOutput::new(name, item_size));
        assert(builder@.outputs =~= self@.outputs.push(
            OutputView { name: name@, item_size, writer: None },
        ));
        builder
    }

    /// The declared ports.
    pub fn build(self) -> (sio: StreamIo)
        ensures
            sio@ == self@,
    {
        StreamIo { inputs: self.inputs, outputs: self.outputs }
    }
}

/// The message ports of a block.
#[derive(Debug)]
pub struct MessageIo {
    inputs: Vec<String>,
    outputs: Vec<String>,
}

impl View for MessageIo {
    type V = MessageIoView;

    closed spec fn view(&self) -> MessageIoView {
        MessageIoView {
            inputs: self.inputs@.map_values(|n: String| n@),
            outputs: self.outputs@.map_values(|n: String| n@),
        }
    }
}

impl MessageIo {
    /// Number of message inputs.
    pub fn inputs_len(&self) -> (n: usize)
        ensures
            n == self@.inputs.len(),
    {
        self.inputs.len()
    }

    /// The index of the first message input called `name`.
    pub fn input_name_to_id(&self, name: &str) -> (id: Option<usize>)
        ensures
            id is Some <==> named(self@.inputs, name@) is Some,
            id is Some ==> id->0 == named(self@.inputs, name@)->0,
    {
        let wanted: String = name.to_owned();
        let ghost names = self@.inputs;
        let mut i: usize = 0;
        while i < self.inputs.len()
            invariant
                i <= self.inputs@.len(),
                names == self@.inputs,
                wanted@ == name@,
                forall|j: int| 0 <= j < i ==> names[j] != name@,
            decreases self.inputs@.len() - i,
        {
            if self.inputs[i] == wanted {
                proof {
                    lemma_named(names, name@, i as int);
                }
                return Some(i);
            }
            i = i + 1;
        }
        proof {
            lemma_not_named(names, name@);
        }
        None
    }

    /// The index of the first message output called `name`.
    pub fn output_name_to_id(&self, name: &str) -> (id: Option<usize>)
        ensures
            id is Some <==> named(self@.outputs, name@) is Some,
            id is Some ==> id->0 == named(self@.outputs, name@)->0,
    {
        let wanted: String = name.to_owned();
        let ghost names = self@.outputs;
        let mut i: usize = 0;
        while i < self.outputs.len()
            invariant
                i <= self.outputs@.len(),
                names == self@.outputs,
                wanted@ == name@,
                forall|j: int| 0 <= j < i ==> names[j] != name@,
            decreases self.outputs@.len() - i,
        {
            if self.outputs[i] == wanted {
                proof {
                    lemma_named(names, name@, i as int);
                }
                return Some(i);
            }
            i = i + 1;
        }
        proof {
            lemma_not_named(names, name@);
        }
        None
    }
}

/// Declares the message ports of a block, one at a time.
#[derive(Debug)]
pub struct MessageIoBuilder {
    inputs: Vec<String>,
    outputs: Vec<String>,
}

impl View for MessageIoBuilder {
    type V = MessageIoView;

    closed spec fn view(&self) -> MessageIoView {
        MessageIoView {
            inputs: self.inputs@.map_values(|n: String| n@),
            outputs: self.outputs@.map_values(|n: String| n@),
        }
    }
}

impl MessageIoBuilder {
    /// No ports yet.
    pub fn new() -> (builder: MessageIoBuilder)
        ensures
            builder@ == (MessageIoView { inputs: Seq::empty(), outputs: Seq::empty() }),
    {
        let builder = MessageIoBuilder { inputs: Vec::new(), outputs: Vec::new() };
        assert(builder@.inputs =~= Seq::empty());
        assert(builder@.outputs =~= Seq::empty());
        builder
    }

    /// Declares one more message input.
    pub fn add_input(self, name: &str) -> (builder: MessageIoBuilder)
        ensures
            builder@ == (MessageIoView { inputs: self@.inputs.push(name@), ..self@ }),
    {
        let mut builder = self;
        builder.inputs.push(name.to_owned());
        assert(builder@.inputs =~= self@.inputs.push(name@));
        builder
    }

    /// Declares one more message output.
    pub fn add_output(self, name: &str) -> (builder: MessageIoBuilder)
        ensures
            builder@ == (MessageIoView { outputs: self@.outputs.push(name@), ..self@ }),
    {
        let mut builder = self;
        builder.outputs.push(name.to_owned());
        assert(builder@.outputs =~= self@.outputs.push(name@));
        builder
    }

    /// The declared ports.
    pub fn build(self) -> (mio: MessageIo)
        ensures
            mio@ == self@,
    {
        MessageIo { inputs: self.inputs, outputs: self.outputs }
    }
}

/// What the scheduler reads off one invocation of a kernel.
#[derive(Debug, Clone, Copy, PartialEq, Eq)]
pub struct WorkIo {
    /// The block is done and must not be invoked again.
    pub finished: bool,
}

/// The two flavours of kernel: one whose invocation always runs to its end,
/// and one whose invocation may wait for an outside event.
#[derive(Debug)]
pub enum Kernel<K> {
    Sync(K),
    Async(K),
}

impl<K> Kernel<K> {
    /// The kernel, of whichever flavour.
    pub open spec fn inner(self) -> K {
        match self {
            Kernel::Sync(k) => k,
            Kernel::Async(k) => k,
        }
    }
}

/// What a block is.
pub struct BlockView<K> {
    pub name: Seq<char>,
    pub sio: StreamIoView,
    pub mio: MessageIoView,
    pub kernel: Kernel<K>,
}

impl<K> BlockView<K> {
    /// The block with output `port` bound to `writer`.
    pub open spec fn with_writer(self, port: int, writer: WriterView) -> BlockView<K>
        recommends
            0 <= port < self.sio.outputs.len(),
    {
        BlockView {
            sio: StreamIoView {
                outputs: self.sio.outputs.update(
                    port,
                    OutputView { writer: Some(writer), ..self.sio.outputs[port] },
                ),
                ..self.sio
            },
            ..self
        }
    }

    /// The block after it took in `message`, or nothing where the message
    /// names a port that the block does not have or that is not bound. The end
    /// of a stream marks the reader of the input, or the writer of the
    /// output, finished; a call needs the message input to exist; a `Notify`
    /// changes nothing.
    pub open spec fn accepted(self, message: AsyncMessage) -> Option<BlockView<K>> {
        match message {
            AsyncMessage::Notify => Some(self),
            AsyncMessage::StreamInputDone { input_id } => if input_id < self.sio.inputs.len()
                && self.sio.inputs[input_id as int].reader is Some {
                Some(
                    self.with_reader(
                        input_id as int,
                        self.sio.inputs[input_id as int].reader->0.marked_finished(),
                    ),
                )
            } else {
                None
            },
            AsyncMessage::StreamOutputDone { output_id } => if output_id < self.sio.outputs.len()
                && self.sio.outputs[output_id as int].writer is Some {
                Some(
                    self.with_writer(
                        output_id as int,
                        self.sio.outputs[output_id as int].writer->0.marked_finished(),
                    ),
                )
            } else {
                None
            },
            AsyncMessage::BlockCall { block_id, port_id, data } => if port_id
                < self.mio.inputs.len() {
                Some(self)
            } else {
                None
            },
            AsyncMessage::BlockCallback { block_id, port_id, data } => if port_id
                < self.mio.inputs.len() {
                Some(self)
            } else {
                None
            },
        }
    }

    /// The block with input `port` bound to `reader`.
    pub open spec fn with_reader(self, port: int, reader: ReaderView) -> BlockView<K>
        recommends
            0 <= port < self.sio.inputs.len(),
    {
        BlockView {
            sio: StreamIoView {
                inputs: self.sio.inputs.update(
                    port,
                    InputView { reader: Some(reader), ..self.sio.inputs[port] },
                ),
                ..self.sio
            },
            ..self
        }
    }
}

/// A kernel with its name and its ports.
#[derive(Debug)]
pub struct Block<K> {
    name: String,
    sio: StreamIo,
    mio: MessageIo,
    kernel: Kernel<K>,
}

impl<K> View for Block<K> {
    type V = BlockView<K>;

    closed spec fn view(&self) -> BlockView<K> {
        BlockView { name: self.name@, sio: self.sio@, mio: self.mio@, kernel: self.kernel }
    }
}

impl<K> Block<K> {
    /// A block around a kernel that may wait during an invocation.
    pub fn new_async(name: &str, sio: StreamIo, mio: MessageIo, kernel: K) -> (block: Block<K>)
        ensures
            block@ == (BlockView {
                name: name@,
                sio: sio@,
                mio: mio@,
                kernel: Kernel::Async(kernel),
            }),
    {
        Block { name: name.to_owned(), sio, mio, kernel: Kernel::Async(kernel) }
    }

    /// A block around a kernel whose invocations never wait.
    pub fn new_sync(name: &str, sio: StreamIo, mio: MessageIo, kernel: K) -> (block: Block<K>)
        ensures
            block@ == (BlockView { name: name@, sio: sio@, mio: mio@, kernel: Kernel::Sync(kernel) }),
    {
        Block { name: name.to_owned(), sio, mio, kernel: Kernel::Sync(kernel) }
    }

    /// The kernel, if it is of the waiting flavour.
    pub fn as_async(&self) -> (kernel: Option<&K>)
        ensures
            kernel == (match self@.kernel {
                Kernel::Async(k) => Some(&k),
                Kernel::Sync(_) => None,
            }),
    {
        match &self.kernel {
            Kernel::Async(k) => Some(k),
            Kernel::Sync(_) => None,
        }
    }

    /// The kernel, if it is of the flavour that never waits.
    pub fn as_sync(&self) -> (kernel: Option<&K>)
        ensures
            kernel == (match self@.kernel {
                Kernel::Sync(k) => Some(&k),
                Kernel::Async(_) => None,
            }),
    {
        match &self.kernel {
            Kernel::Sync(k) => Some(k),
            Kernel::Async(_) => None,
        }
    }

    /// The same block around another kernel, which `wrap` makes from the one
    /// the block has. Name, ports and flavour stay.
    pub fn map_kernel<J, F: FnOnce(K) -> J>(self, wrap: F) -> (block: Block<J>)
        requires
            wrap.requires((self@.kernel.inner(),)),
        ensures
            block@.name == self@.name,
            block@.sio == self@.sio,
            block@.mio == self@.mio,
            block@.kernel is Sync == self@.kernel is Sync,
            wrap.ensures((self@.kernel.inner(),), block@.kernel.inner()),
    {
        let Block { name, sio, mio, kernel } = self;
        let kernel = match kernel {
            Kernel::Sync(k) => Kernel::Sync(wrap(k)),
            Kernel::Async(k) => Kernel::Async(wrap(k)),
        };
        Block { name, sio, mio, kernel }
    }

    /// The kernel, of whichever flavour, to change it.
    pub fn kernel_mut(&mut self) -> (kernel: &mut K)
        ensures
            *kernel == (match old(self)@.kernel {
                Kernel::Sync(k) => k,
                Kernel::Async(k) => k,
            }),
            final(self)@ == (BlockView {
                kernel: match old(self)@.kernel {
                    Kernel::Sync(_) => Kernel::Sync(*final(kernel)),
                    Kernel::Async(_) => Kernel::Async(*final(kernel)),
                },
                ..old(self)@
            }),
    {
        match &mut self.kernel {
            Kernel::Sync(k) => k,
            Kernel::Async(k) => k,
        }
    }

    /// The stream ports, to read.
    pub fn stream_io(&self) -> (sio: &StreamIo)
        ensures
            sio@ == self@.sio,
    {
        &self.sio
    }

    /// The stream ports.
    pub fn stream_io_mut(&mut self) -> (sio: &mut StreamIo)
        ensures
            (*sio)@ == old(self)@.sio,
            final(self)@ == (BlockView { sio: (*final(sio))@, ..old(self)@ }),
    {
        &mut self.sio
    }

    /// Binds output `id` to `writer`.
    pub fn bind_output(&mut self, id: usize, writer: BufferWriter)
        requires
            id < old(self)@.sio.outputs.len(),
        ensures
            final(self)@ == old(self)@.with_writer(id as int, writer@),
    {
        self.sio.output(id).bind(writer);
    }

    /// Binds input `id` to `reader`.
    pub fn bind_input(&mut self, id: usize, reader: BufferReader)
        requires
            id < old(self)@.sio.inputs.len(),
        ensures
            final(self)@ == old(self)@.with_reader(id as int, reader@),
    {
        self.sio.input(id).bind(reader);
    }

    /// Takes in a control message. Gives `false`, and leaves the block as it
    /// is, where the message names a port that the block does not have or
    /// that is not bound.
    pub fn accept(&mut self, message: &AsyncMessage) -> (taken: bool)
        ensures
            taken == old(self)@.accepted(*message) is Some,
            taken ==> final(self)@ == old(self)@.accepted(*message)->0,
            !taken ==> final(self)@ == old(self)@,
    {
        match message {
            AsyncMessage::Notify => true,
            AsyncMessage::StreamInputDone { input_id } => {
                if *input_id >= self.sio.inputs_len() {
                    return false;
                }
                if !self.sio.input_ref(*input_id).is_bound() {
                    return false;
                }
                let port = self.sio.input(*input_id);
                match port.reader() {
                    Some(reader) => {
                        reader.finish();
                        true
                    },
                    None => false,
                }
            },
            AsyncMessage::StreamOutputDone { output_id } => {
                if *output_id >= self.sio.outputs_len() {
                    return false;
                }
                if !self.sio.output_ref(*output_id).is_bound() {
                    return false;
                }
                let port = self.sio.output(*output_id);
                match port.writer() {
                    Some(writer) => {
                        writer.finish();
                        true
                    },
                    None => false,
                }
            },
            AsyncMessage::BlockCall { block_id, port_id, data } => *port_id
                < self.mio.inputs_len(),
            AsyncMessage::BlockCallback { block_id, port_id, data } => *port_id
                < self.mio.inputs_len(),
        }
    }

    /// The message ports, to read.
    pub fn message_io(&self) -> (mio: &MessageIo)
        ensures
            mio@ == self@.mio,
    {
        &self.mio
    }
}

} // verus!
