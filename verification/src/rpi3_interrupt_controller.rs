//! The Raspberry Pi 3 interrupt controller: a register block at a fixed
//! MMIO base whose enable/disable registers are side-effecting on writing
//! ones. Every operation therefore writes a singleton bit-mask — never a
//! read-modify-write of the whole register — so one line's operation can
//! never disturb another line's bit. The controller computes each write
//! (target register address and mask) and tracks the enable state the
//! hardware register would show; the thin runtime around the kernel
//! performs the actual volatile store.

use vstd::prelude::*;

verus! {

/// The closed set of interrupt lines this platform family supports.
#[allow(non_camel_case_types)]
#[derive(Copy, Clone, Debug, PartialEq, Eq, Structural)]
pub enum IRQType {
    ARM_TIMER,
    ARM_MAILBOX,
    ARM_GPIO_HALTED,
    UART,
}

/// The two enable/disable register banks: the basic bank owns the timer,
/// mailbox and GPU-halt lines; the second bank owns the UART line.
#[derive(Copy, Clone, Debug, PartialEq, Eq, Structural)]
pub enum IrqBank {
    Basic,
    Bank2,
}

/// The registers of the controller's block, in their hardware order.
#[derive(Copy, Clone, Debug, PartialEq, Eq, Structural)]
pub enum IrqRegister {
    IrqBasicPending,
    IrqPending1,
    IrqPending2,
    FiqControl,
    EnableIrqs1,
    EnableIrqs2,
    EnableBasicIrqs,
    DisableIrqs1,
    DisableIrqs2,
    DisableBasicIrqs,
}

impl IrqRegister {
    /// Byte offset of the register from the controller's base address.
    pub open spec fn spec_offset(self) -> usize {
        match self {
            IrqRegister::IrqBasicPending => 0x00,
            IrqRegister::IrqPending1 => 0x04,
            IrqRegister::IrqPending2 => 0x08,
            IrqRegister::FiqControl => 0x0C,
            IrqRegister::EnableIrqs1 => 0x10,
            IrqRegister::EnableIrqs2 => 0x14,
            IrqRegister::EnableBasicIrqs => 0x18,
            IrqRegister::DisableIrqs1 => 0x1C,
            IrqRegister::DisableIrqs2 => 0x20,
            IrqRegister::DisableBasicIrqs => 0x24,
        }
    }

    /// Byte offset of the register from the controller's base address.
    pub fn offset(self) -> (r: usize)
        ensures
            r == self.spec_offset(),
            r <= 0x24,
    {
        match self {
            IrqRegister::IrqBasicPending => 0x00,
            IrqRegister::IrqPending1 => 0x04,
            IrqRegister::IrqPending2 => 0x08,
            IrqRegister::FiqControl => 0x0C,
            IrqRegister::EnableIrqs1 => 0x10,
            IrqRegister::EnableIrqs2 => 0x14,
            IrqRegister::EnableBasicIrqs => 0x18,
            IrqRegister::DisableIrqs1 => 0x1C,
            IrqRegister::DisableIrqs2 => 0x20,
            IrqRegister::DisableBasicIrqs => 0x24,
        }
    }
}

impl IRQType {
    /// Which bank's enable/disable registers hold the line's bit.
    pub open spec fn spec_bank(self) -> IrqBank {
        match self {
            IRQType::ARM_TIMER => IrqBank::Basic,
            IRQType::ARM_MAILBOX => IrqBank::Basic,
            IRQType::ARM_GPIO_HALTED => IrqBank::Basic,
            IRQType::UART => IrqBank::Bank2,
        }
    }

    /// Bit position the line owns inside its bank's registers.
    pub open spec fn spec_bit(self) -> u32 {
        match self {
            IRQType::ARM_TIMER => 0,
            IRQType::ARM_MAILBOX => 1,
            IRQType::ARM_GPIO_HALTED => 4,
            IRQType::UART => 25,
        }
    }

    /// The singleton mask holding exactly the line's own bit.
    pub open spec fn spec_mask(self) -> u32 {
        1u32 << self.spec_bit()
    }

    /// Two distinct lines of the same bank own distinct bits.
    pub proof fn lemma_distinct_bits(self, other: Self)
        requires
            self != other,
            self.spec_bank() == other.spec_bank(),
        ensures
            self.spec_bit() != other.spec_bit(),
    {
    }
}

/// Setting or clearing bit `i` of a register leaves every other bit `j`
/// exactly as it was: the ground fact behind the singleton-mask write
/// discipline.
pub proof fn lemma_other_bit_untouched(state: u32, i: u32, j: u32)
    requires
        i < 32,
        j < 32,
        i != j,
    ensures
        (state | (1u32 << i)) & (1u32 << j) == state & (1u32 << j),
        (state & !(1u32 << i)) & (1u32 << j) == state & (1u32 << j),
{
    assert((state | (1u32 << i)) & (1u32 << j) == state & (1u32 << j)) by (bit_vector)
        requires
            i < 32,
            j < 32,
            i != j,
    ;
    assert((state & !(1u32 << i)) & (1u32 << j) == state & (1u32 << j)) by (bit_vector)
        requires
            i < 32,
            j < 32,
            i != j,
    ;
}

/// One MMIO store the runtime must perform: the absolute register
/// address and the singleton mask to write there.
#[derive(Copy, Clone, Debug, PartialEq, Eq, Structural)]
pub struct RegisterWrite {
    pub address: usize,
    pub mask: u32,
}

/// The platform interrupt controller: the MMIO base of its register
/// block, the enable state each bank's register would show, and the
/// handler associations registered so far.
pub struct Rpi3InterruptController {
    base_address: usize,
    enabled_basic: u32,
    enabled_2: u32,
    connected: Vec<(IRQType, usize)>,
}

impl Rpi3InterruptController {
    /// The controller's MMIO base address.
    pub closed spec fn spec_base_address(self) -> usize {
        self.base_address
    }

    /// Enable state of the basic bank, as its pending/enable register
    /// would read it back.
    pub closed spec fn spec_enabled_basic(self) -> u32 {
        self.enabled_basic
    }

    /// Enable state of the second bank.
    pub closed spec fn spec_enabled_2(self) -> u32 {
        self.enabled_2
    }

    /// The handler associations registered so far, in registration order.
    pub closed spec fn spec_connected(self) -> Seq<(IRQType, usize)> {
        self.connected@
    }

    /// Enable state of the bank a given line lives in.
    pub open spec fn spec_enabled_bank(self, bank: IrqBank) -> u32 {
        match bank {
            IrqBank::Basic => self.spec_enabled_basic(),
            IrqBank::Bank2 => self.spec_enabled_2(),
        }
    }

    /// Whether a line is currently enabled.
    pub open spec fn spec_line_enabled(self, irq: IRQType) -> bool {
        self.spec_enabled_bank(irq.spec_bank()) & irq.spec_mask() != 0
    }

    /// Creates a controller for the register block at `base_address`,
    /// with no line enabled and no handler connected.
    pub fn new(base_address: usize) -> (r: Self)
        requires
            base_address + 0x24 <= usize::MAX,
        ensures
            r.spec_base_address() == base_address,
            r.spec_enabled_basic() == 0,
            r.spec_enabled_2() == 0,
            r.spec_connected() =~= Seq::<(IRQType, usize)>::empty(),
    {
        Rpi3InterruptController {
            base_address,
            enabled_basic: 0,
            enabled_2: 0,
            connected: Vec::new(),
        }
    }

    /// Absolute address of one register of the block.
    pub fn register_address(&self, reg: IrqRegister) -> (r: usize)
        requires
            self.spec_base_address() + 0x24 <= usize::MAX,
        ensures
            r == self.spec_base_address() + reg.spec_offset(),
    {
        self.base_address + reg.offset()
    }

    /// Enables one line: a single write of the line's own bit to its
    /// bank's enable register. Returns the store to perform; the tracked
    /// enable state gains exactly that bit and the other bank is left
    /// alone.
    #[allow(non_snake_case)]
    pub fn enable_IRQ(&mut self, irq_number: IRQType) -> (w: RegisterWrite)
        requires
            old(self).spec_base_address() + 0x24 <= usize::MAX,
        ensures
            w.mask == irq_number.spec_mask(),
            w.address == old(self).spec_base_address() + (match irq_number.spec_bank() {
                IrqBank::Basic => IrqRegister::EnableBasicIrqs.spec_offset(),
                IrqBank::Bank2 => IrqRegister::EnableIrqs2.spec_offset(),
            }),
            final(self).spec_base_address() == old(self).spec_base_address(),
            final(self).spec_connected() == old(self).spec_connected(),
            final(self).spec_enabled_bank(irq_number.spec_bank()) == old(self).spec_enabled_bank(
                irq_number.spec_bank()) | irq_number.spec_mask(),
            forall|b: IrqBank| b != irq_number.spec_bank()
                ==> final(self).spec_enabled_bank(b) == old(self).spec_enabled_bank(b),
            final(self).spec_line_enabled(irq_number),
    {
        let mask = match irq_number {
            IRQType::ARM_TIMER => 1u32 << 0,
            IRQType::ARM_MAILBOX => 1u32 << 1,
            IRQType::ARM_GPIO_HALTED => 1u32 << 4,
            IRQType::UART => 1u32 << 25,
        };
        proof {
            assert(forall|s: u32, b: u32|
                b < 32 ==> ((s | (1u32 << b)) & (1u32 << b)) != 0) by (bit_vector);
            assert(mask == irq_number.spec_mask());
        }
        match irq_number {
            IRQType::UART => {
                self.enabled_2 = self.enabled_2 | mask;
                let address = self.register_address(IrqRegister::EnableIrqs2);
                RegisterWrite { address, mask }
            },
            _ => {
                self.enabled_basic = self.enabled_basic | mask;
                let address = self.register_address(IrqRegister::EnableBasicIrqs);
                RegisterWrite { address, mask }
            },
        }
    }

    /// Disables one line: a single write of the line's own bit to its
    /// bank's disable register. Returns the store to perform; the tracked
    /// enable state loses exactly that bit and the other bank is left
    /// alone.
    #[allow(non_snake_case)]
    pub fn disable_IRQ(&mut self, irq_number: IRQType) -> (w: RegisterWrite)
        requires
            old(self).spec_base_address() + 0x24 <= usize::MAX,
        ensures
            w.mask == irq_number.spec_mask(),
            w.address == old(self).spec_base_address() + (match irq_number.spec_bank() {
                IrqBank::Basic => IrqRegister::DisableBasicIrqs.spec_offset(),
                IrqBank::Bank2 => IrqRegister::DisableIrqs2.spec_offset(),
            }),
            final(self).spec_base_address() == old(self).spec_base_address(),
            final(self).spec_connected() == old(self).spec_connected(),
            final(self).spec_enabled_bank(irq_number.spec_bank()) == old(self).spec_enabled_bank(
                irq_number.spec_bank()) & !irq_number.spec_mask(),
            forall|b: IrqBank| b != irq_number.spec_bank()
                ==> final(self).spec_enabled_bank(b) == old(self).spec_enabled_bank(b),
            !final(self).spec_line_enabled(irq_number),
    {
        let mask = match irq_number {
            IRQType::ARM_TIMER => 1u32 << 0,
            IRQType::ARM_MAILBOX => 1u32 << 1,
            IRQType::ARM_GPIO_HALTED => 1u32 << 4,
            IRQType::UART => 1u32 << 25,
        };
        proof {
            assert(forall|s: u32, b: u32|
                ((s & !(1u32 << b)) & (1u32 << b)) == 0) by (bit_vector);
            assert(mask == irq_number.spec_mask());
        }
        match irq_number {
            IRQType::UART => {
                self.enabled_2 = self.enabled_2 & !mask;
                let address = self.register_address(IrqRegister::DisableIrqs2);
                RegisterWrite { address, mask }
            },
            _ => {
                self.enabled_basic = self.enabled_basic & !mask;
                let address = self.register_address(IrqRegister::DisableBasicIrqs);
                RegisterWrite { address, mask }
            },
        }
    }

    /// Registers a handler association for a line. This records the pair
    /// and does not, by itself, enable the line.
    pub fn connect_irq(&mut self, irq_number: IRQType, irq_descriptor: usize) -> (r: Result<
        (),
        (),
    >)
        ensures
            r is Ok,
            final(self).spec_base_address() == old(self).spec_base_address(),
            final(self).spec_enabled_basic() == old(self).spec_enabled_basic(),
            final(self).spec_enabled_2() == old(self).spec_enabled_2(),
            final(self).spec_connected() == old(self).spec_connected().push(
                (irq_number, irq_descriptor)),
    {
        self.connected.push((irq_number, irq_descriptor));
        Ok(())
    }

    /// Whether a line is enabled, as the hardware enable register would
    /// show it.
    pub fn line_enabled(&self, irq: IRQType) -> (r: bool)
        ensures
            r == self.spec_line_enabled(irq),
    {
        let mask = match irq {
            IRQType::ARM_TIMER => 1u32 << 0,
            IRQType::ARM_MAILBOX => 1u32 << 1,
            IRQType::ARM_GPIO_HALTED => 1u32 << 4,
            IRQType::UART => 1u32 << 25,
        };
        proof {
            assert(mask == irq.spec_mask());
        }
        let bank_state = match irq {
            IRQType::UART => self.enabled_2,
            _ => self.enabled_basic,
        };
        bank_state & mask != 0
    }

    /// The registered handler associations, in registration order.
    pub fn connected_lines(&self) -> (r: &Vec<(IRQType, usize)>)
        ensures
            r@ == self.spec_connected(),
    {
        &self.connected
    }

    /// Enabling or disabling one line leaves every other line's enabled
    /// state exactly as it was, whether the other line shares the bank
    /// (distinct bits of one register) or not (distinct registers).
    pub proof fn lemma_line_isolation(
        pre: Self,
        post_enable: Self,
        post_disable: Self,
        line: IRQType,
        other: IRQType,
    )
        requires
            other != line,
            post_enable.spec_enabled_bank(line.spec_bank()) == pre.spec_enabled_bank(
                line.spec_bank()) | line.spec_mask(),
            forall|b: IrqBank| b != line.spec_bank()
                ==> post_enable.spec_enabled_bank(b) == pre.spec_enabled_bank(b),
            post_disable.spec_enabled_bank(line.spec_bank()) == pre.spec_enabled_bank(
                line.spec_bank()) & !line.spec_mask(),
            forall|b: IrqBank| b != line.spec_bank()
                ==> post_disable.spec_enabled_bank(b) == pre.spec_enabled_bank(b),
        ensures
            post_enable.spec_line_enabled(other) == pre.spec_line_enabled(other),
            post_disable.spec_line_enabled(other) == pre.spec_line_enabled(other),
    {
        if other.spec_bank() == line.spec_bank() {
            line.lemma_distinct_bits(other);
            lemma_other_bit_untouched(
                pre.spec_enabled_bank(line.spec_bank()),
                line.spec_bit(),
                other.spec_bit(),
            );
        }
    }
}

} // verus!
