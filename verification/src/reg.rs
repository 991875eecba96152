use vstd::prelude::*;

verus! {

/// Width classes of the physical x86-64 registers.
#[derive(PartialEq, Eq, Structural, Clone, Copy, Debug)]
pub enum RegisterSize {
    Byte,
    Word,
    Dword,
    Qword,
    Oword,
}

/// The named physical registers, grouped by width.
#[derive(PartialEq, Eq, Structural, Clone, Copy, Debug)]
pub enum RegisterLabel {
    // 128-bit XMM registers
    Xmm0,
    Xmm1,
    Xmm2,
    Xmm3,
    Xmm4,
    Xmm5,
    Xmm6,
    Xmm7,
    // 64-bit
    Rax,
    Rbx,
    Rcx,
    Rdx,
    Rsi,
    Rdi,
    Rbp,
    Rsp,
    R8,
    R9,
    R10,
    R11,
    R12,
    R13,
    R14,
    R15,
    // Lower 32 bits
    Eax,
    Ebx,
    Ecx,
    Edx,
    Esi,
    Edi,
    Ebp,
    Esp,
    R8d,
    R9d,
    R10d,
    R11d,
    R12d,
    R13d,
    R14d,
    R15d,
    // Lower 16 bits
    Ax,
    Bx,
    Cx,
    Dx,
    Si,
    Di,
    Bp,
    Sp,
    R8w,
    R9w,
    R10w,
    R11w,
    R12w,
    R13w,
    R14w,
    R15w,
    // Lower 8 bits
    Al,
    Bl,
    Cl,
    Dl,
    Sil,
    Dil,
    Bpl,
    Spl,
    R8b,
    R9b,
    R10b,
    R11b,
    R12b,
    R13b,
    R14b,
    R15b,
}

/// One slot of the register file: a named register of a fixed width and a
/// used/free flag.
#[derive(PartialEq, Eq, Structural, Clone, Copy, Debug)]
pub struct Register {
    pub label: RegisterLabel,
    pub size: RegisterSize,
    pub used: bool,
}

/// Errors of the register allocator.
#[derive(PartialEq, Eq, Structural, Clone, Copy, Debug)]
pub enum RegError {
    /// No free register of the requested width is left.
    NoFreeRegister(RegisterSize),
    /// A register that is not in use was handed back.
    NotInUse(RegisterLabel),
}

/// The static description of the register file, in allocation order: the
/// eight XMM registers, then the sixteen registers of each general-purpose
/// width from 64 bits down to 8 bits.
pub open spec fn register_table() -> Seq<(RegisterLabel, RegisterSize)> {
    seq![
        (RegisterLabel::Xmm0, RegisterSize::Oword),
        (RegisterLabel::Xmm1, RegisterSize::Oword),
        (RegisterLabel::Xmm2, RegisterSize::Oword),
        (RegisterLabel::Xmm3, RegisterSize::Oword),
        (RegisterLabel::Xmm4, RegisterSize::Oword),
        (RegisterLabel::Xmm5, RegisterSize::Oword),
        (RegisterLabel::Xmm6, RegisterSize::Oword),
        (RegisterLabel::Xmm7, RegisterSize::Oword),
        (RegisterLabel::Rax, RegisterSize::Qword),
        (RegisterLabel::Rbx, RegisterSize::Qword),
        (RegisterLabel::Rcx, RegisterSize::Qword),
        (RegisterLabel::Rdx, RegisterSize::Qword),
        (RegisterLabel::Rsi, RegisterSize::Qword),
        (RegisterLabel::Rdi, RegisterSize::Qword),
        (RegisterLabel::Rbp, RegisterSize::Qword),
        (RegisterLabel::Rsp, RegisterSize::Qword),
        (RegisterLabel::R8, RegisterSize::Qword),
        (RegisterLabel::R9, RegisterSize::Qword),
        (RegisterLabel::R10, RegisterSize::Qword),
        (RegisterLabel::R11, RegisterSize::Qword),
        (RegisterLabel::R12, RegisterSize::Qword),
        (RegisterLabel::R13, RegisterSize::Qword),
        (RegisterLabel::R14, RegisterSize::Qword),
        (RegisterLabel::R15, RegisterSize::Qword),
        (RegisterLabel::Eax, RegisterSize::Dword),
        (RegisterLabel::Ebx, RegisterSize::Dword),
        (RegisterLabel::Ecx, RegisterSize::Dword),
        (RegisterLabel::Edx, RegisterSize::Dword),
        (RegisterLabel::Esi, RegisterSize::Dword),
        (RegisterLabel::Edi, RegisterSize::Dword),
        (RegisterLabel::Ebp, RegisterSize::Dword),
        (RegisterLabel::Esp, RegisterSize::Dword),
        (RegisterLabel::R8d, RegisterSize::Dword),
        (RegisterLabel::R9d, RegisterSize::Dword),
        (RegisterLabel::R10d, RegisterSize::Dword),
        (RegisterLabel::R11d, RegisterSize::Dword),
        (RegisterLabel::R12d, RegisterSize::Dword),
        (RegisterLabel::R13d, RegisterSize::Dword),
        (RegisterLabel::R14d, RegisterSize::Dword),
        (RegisterLabel::R15d, RegisterSize::Dword),
        (RegisterLabel::Ax, RegisterSize::Word),
        (RegisterLabel::Bx, RegisterSize::Word),
        (RegisterLabel::Cx, RegisterSize::Word),
        (RegisterLabel::Dx, RegisterSize::Word),
        (RegisterLabel::Si, RegisterSize::Word),
        (RegisterLabel::Di, RegisterSize::Word),
        (RegisterLabel::Bp, RegisterSize::Word),
        (RegisterLabel::Sp, RegisterSize::Word),
        (RegisterLabel::R8w, RegisterSize::Word),
        (RegisterLabel::R9w, RegisterSize::Word),
        (RegisterLabel::R10w, RegisterSize::Word),
        (RegisterLabel::R11w, RegisterSize::Word),
        (RegisterLabel::R12w, RegisterSize::Word),
        (RegisterLabel::R13w, RegisterSize::Word),
        (RegisterLabel::R14w, RegisterSize::Word),
        (RegisterLabel::R15w, RegisterSize::Word),
        (RegisterLabel::Al, RegisterSize::Byte),
        (RegisterLabel::Bl, RegisterSize::Byte),
        (RegisterLabel::Cl, RegisterSize::Byte),
        (RegisterLabel::Dl, RegisterSize::Byte),
        (RegisterLabel::Sil, RegisterSize::Byte),
        (RegisterLabel::Dil, RegisterSize::Byte),
        (RegisterLabel::Bpl, RegisterSize::Byte),
        (RegisterLabel::Spl, RegisterSize::Byte),
        (RegisterLabel::R8b, RegisterSize::Byte),
        (RegisterLabel::R9b, RegisterSize::Byte),
        (RegisterLabel::R10b, RegisterSize::Byte),
        (RegisterLabel::R11b, RegisterSize::Byte),
        (RegisterLabel::R12b, RegisterSize::Byte),
        (RegisterLabel::R13b, RegisterSize::Byte),
        (RegisterLabel::R14b, RegisterSize::Byte),
        (RegisterLabel::R15b, RegisterSize::Byte),
    ]
}

/// A slot that the allocator may hand out for the given width.
pub open spec fn is_free_match(r: Register, size: RegisterSize) -> bool {
    !r.used && r.size == size
}

/// The width of a named register, as the static table fixes it.
pub open spec fn spec_label_width(l: RegisterLabel) -> RegisterSize {
    match l {
        RegisterLabel::Xmm0 | RegisterLabel::Xmm1 | RegisterLabel::Xmm2 | RegisterLabel::Xmm3
        | RegisterLabel::Xmm4 | RegisterLabel::Xmm5 | RegisterLabel::Xmm6
        | RegisterLabel::Xmm7 => RegisterSize::Oword,
        RegisterLabel::Rax | RegisterLabel::Rbx | RegisterLabel::Rcx | RegisterLabel::Rdx
        | RegisterLabel::Rsi | RegisterLabel::Rdi | RegisterLabel::Rbp | RegisterLabel::Rsp
        | RegisterLabel::R8 | RegisterLabel::R9 | RegisterLabel::R10 | RegisterLabel::R11
        | RegisterLabel::R12 | RegisterLabel::R13 | RegisterLabel::R14
        | RegisterLabel::R15 => RegisterSize::Qword,
        RegisterLabel::Eax | RegisterLabel::Ebx | RegisterLabel::Ecx | RegisterLabel::Edx
        | RegisterLabel::Esi | RegisterLabel::Edi | RegisterLabel::Ebp | RegisterLabel::Esp
        | RegisterLabel::R8d | RegisterLabel::R9d | RegisterLabel::R10d | RegisterLabel::R11d
        | RegisterLabel::R12d | RegisterLabel::R13d | RegisterLabel::R14d
        | RegisterLabel::R15d => RegisterSize::Dword,
        RegisterLabel::Ax | RegisterLabel::Bx | RegisterLabel::Cx | RegisterLabel::Dx
        | RegisterLabel::Si | RegisterLabel::Di | RegisterLabel::Bp | RegisterLabel::Sp
        | RegisterLabel::R8w | RegisterLabel::R9w | RegisterLabel::R10w | RegisterLabel::R11w
        | RegisterLabel::R12w | RegisterLabel::R13w | RegisterLabel::R14w
        | RegisterLabel::R15w => RegisterSize::Word,
        RegisterLabel::Al | RegisterLabel::Bl | RegisterLabel::Cl | RegisterLabel::Dl
        | RegisterLabel::Sil | RegisterLabel::Dil | RegisterLabel::Bpl | RegisterLabel::Spl
        | RegisterLabel::R8b | RegisterLabel::R9b | RegisterLabel::R10b | RegisterLabel::R11b
        | RegisterLabel::R12b | RegisterLabel::R13b | RegisterLabel::R14b
        | RegisterLabel::R15b => RegisterSize::Byte,
    }
}

/// Every entry of the static table carries the width that
/// `spec_label_width` gives its name.
#[verifier::rlimit(100)]
pub proof fn lemma_table_widths()
    ensures
        forall|i: int|
            0 <= i < register_table().len() ==> spec_label_width(
                (#[trigger] register_table()[i]).0,
            ) == register_table()[i].1,
{
}

/// The bounded pool of physical registers.
pub struct RegisterManager {
    pub registers: Vec<Register>,
}

impl RegisterManager {
    /// Whether the pool still holds exactly the registers of the static
    /// table, in order, with only the used flags free to vary.
    pub open spec fn matches_table(self) -> bool {
        &&& self.registers@.len() == register_table().len()
        &&& forall|i: int|
            0 <= i < self.registers@.len() ==> (#[trigger] self.registers@[i]).label
                == register_table()[i].0 && self.registers@[i].size == register_table()[i].1
    }

    /// A fresh register file: every register of the table, in order, free.
    pub fn new() -> (r: RegisterManager)
        ensures
            r.matches_table(),
            forall|i: int| 0 <= i < r.registers@.len() ==> !(#[trigger] r.registers@[i]).used,
    {
        let mut registers: Vec<Register> = Vec::new();
        registers.push(Register { label: RegisterLabel::Xmm0, size: RegisterSize::Oword, used: false });
        registers.push(Register { label: RegisterLabel::Xmm1, size: RegisterSize::Oword, used: false });
        registers.push(Register { label: RegisterLabel::Xmm2, size: RegisterSize::Oword, used: false });
        registers.push(Register { label: RegisterLabel::Xmm3, size: RegisterSize::Oword, used: false });
        registers.push(Register { label: RegisterLabel::Xmm4, size: RegisterSize::Oword, used: false });
        registers.push(Register { label: RegisterLabel::Xmm5, size: RegisterSize::Oword, used: false });
        registers.push(Register { label: RegisterLabel::Xmm6, size: RegisterSize::Oword, used: false });
        registers.push(Register { label: RegisterLabel::Xmm7, size: RegisterSize::Oword, used: false });
        registers.push(Register { label: RegisterLabel::Rax, size: RegisterSize::Qword, used: false });
        registers.push(Register { label: RegisterLabel::Rbx, size: RegisterSize::Qword, used: false });
        registers.push(Register { label: RegisterLabel::Rcx, size: RegisterSize::Qword, used: false });
        registers.push(Register { label: RegisterLabel::Rdx, size: RegisterSize::Qword, used: false });
        registers.push(Register { label: RegisterLabel::Rsi, size: RegisterSize::Qword, used: false });
        registers.push(Register { label: RegisterLabel::Rdi, size: RegisterSize::Qword, used: false });
        registers.push(Register { label: RegisterLabel::Rbp, size: RegisterSize::Qword, used: false });
        registers.push(Register { label: RegisterLabel::Rsp, size: RegisterSize::Qword, used: false });
        registers.push(Register { label: RegisterLabel::R8, size: RegisterSize::Qword, used: false });
        registers.push(Register { label: RegisterLabel::R9, size: RegisterSize::Qword, used: false });
        registers.push(Register { label: RegisterLabel::R10, size: RegisterSize::Qword, used: false });
        registers.push(Register { label: RegisterLabel::R11, size: RegisterSize::Qword, used: false });
        registers.push(Register { label: RegisterLabel::R12, size: RegisterSize::Qword, used: false });
        registers.push(Register { label: RegisterLabel::R13, size: RegisterSize::Qword, used: false });
        registers.push(Register { label: RegisterLabel::R14, size: RegisterSize::Qword, used: false });
        registers.push(Register { label: RegisterLabel::R15, size: RegisterSize::Qword, used: false });
        registers.push(Register { label: RegisterLabel::Eax, size: RegisterSize::Dword, used: false });
        registers.push(Register { label: RegisterLabel::Ebx, size: RegisterSize::Dword, used: false });
        registers.push(Register { label: RegisterLabel::Ecx, size: RegisterSize::Dword, used: false });
        registers.push(Register { label: RegisterLabel::Edx, size: RegisterSize::Dword, used: false });
        registers.push(Register { label: RegisterLabel::Esi, size: RegisterSize::Dword, used: false });
        registers.push(Register { label: RegisterLabel::Edi, size: RegisterSize::Dword, used: false });
        registers.push(Register { label: RegisterLabel::Ebp, size: RegisterSize::Dword, used: false });
        registers.push(Register { label: RegisterLabel::Esp, size: RegisterSize::Dword, used: false });
        registers.push(Register { label: RegisterLabel::R8d, size: RegisterSize::Dword, used: false });
        registers.push(Register { label: RegisterLabel::R9d, size: RegisterSize::Dword, used: false });
        registers.push(Register { label: RegisterLabel::R10d, size: RegisterSize::Dword, used: false });
        registers.push(Register { label: RegisterLabel::R11d, size: RegisterSize::Dword, used: false });
        registers.push(Register { label: RegisterLabel::R12d, size: RegisterSize::Dword, used: false });
        registers.push(Register { label: RegisterLabel::R13d, size: RegisterSize::Dword, used: false });
        registers.push(Register { label: RegisterLabel::R14d, size: RegisterSize::Dword, used: false });
        registers.push(Register { label: RegisterLabel::R15d, size: RegisterSize::Dword, used: false });
        registers.push(Register { label: RegisterLabel::Ax, size: RegisterSize::Word, used: false });
        registers.push(Register { label: RegisterLabel::Bx, size: RegisterSize::Word, used: false });
        registers.push(Register { label: RegisterLabel::Cx, size: RegisterSize::Word, used: false });
        registers.push(Register { label: RegisterLabel::Dx, size: RegisterSize::Word, used: false });
        registers.push(Register { label: RegisterLabel::Si, size: RegisterSize::Word, used: false });
        registers.push(Register { label: RegisterLabel::Di, size: RegisterSize::Word, used: false });
        registers.push(Register { label: RegisterLabel::Bp, size: RegisterSize::Word, used: false });
        registers.push(Register { label: RegisterLabel::Sp, size: RegisterSize::Word, used: false });
        registers.push(Register { label: RegisterLabel::R8w, size: RegisterSize::Word, used: false });
        registers.push(Register { label: RegisterLabel::R9w, size: RegisterSize::Word, used: false });
        registers.push(Register { label: RegisterLabel::R10w, size: RegisterSize::Word, used: false });
        registers.push(Register { label: RegisterLabel::R11w, size: RegisterSize::Word, used: false });
        registers.push(Register { label: RegisterLabel::R12w, size: RegisterSize::Word, used: false });
        registers.push(Register { label: RegisterLabel::R13w, size: RegisterSize::Word, used: false });
        registers.push(Register { label: RegisterLabel::R14w, size: RegisterSize::Word, used: false });
        registers.push(Register { label: RegisterLabel::R15w, size: RegisterSize::Word, used: false });
        registers.push(Register { label: RegisterLabel::Al, size: RegisterSize::Byte, used: false });
        registers.push(Register { label: RegisterLabel::Bl, size: RegisterSize::Byte, used: false });
        registers.push(Register { label: RegisterLabel::Cl, size: RegisterSize::Byte, used: false });
        registers.push(Register { label: RegisterLabel::Dl, size: RegisterSize::Byte, used: false });
        registers.push(Register { label: RegisterLabel::Sil, size: RegisterSize::Byte, used: false });
        registers.push(Register { label: RegisterLabel::Dil, size: RegisterSize::Byte, used: false });
        registers.push(Register { label: RegisterLabel::Bpl, size: RegisterSize::Byte, used: false });
        registers.push(Register { label: RegisterLabel::Spl, size: RegisterSize::Byte, used: false });
        registers.push(Register { label: RegisterLabel::R8b, size: RegisterSize::Byte, used: false });
        registers.push(Register { label: RegisterLabel::R9b, size: RegisterSize::Byte, used: false });
        registers.push(Register { label: RegisterLabel::R10b, size: RegisterSize::Byte, used: false });
        registers.push(Register { label: RegisterLabel::R11b, size: RegisterSize::Byte, used: false });
        registers.push(Register { label: RegisterLabel::R12b, size: RegisterSize::Byte, used: false });
        registers.push(Register { label: RegisterLabel::R13b, size: RegisterSize::Byte, used: false });
        registers.push(Register { label: RegisterLabel::R14b, size: RegisterSize::Byte, used: false });
        registers.push(Register { label: RegisterLabel::R15b, size: RegisterSize::Byte, used: false });
        let r = RegisterManager { registers };
        proof {
            assert forall|i: int| 0 <= i < r.registers@.len() implies (#[trigger] r.registers@[i]).label
                == register_table()[i].0 && r.registers@[i].size == register_table()[i].1
                && !r.registers@[i].used by {
            }
        }
        r
    }

    /// Mark the first free register of the requested width as used and hand
    /// its label out; report exhaustion when every register of that width is
    /// in use.
    pub fn allocate(&mut self, size: RegisterSize) -> (r: Result<RegisterLabel, RegError>)
        ensures
            match r {
                Ok(label) => exists|i: int|
                    0 <= i < old(self).registers@.len() && is_free_match(
                        #[trigger] old(self).registers@[i],
                        size,
                    ) && (forall|j: int|
                        0 <= j < i ==> !is_free_match(#[trigger] old(self).registers@[j], size))
                        && label == old(self).registers@[i].label && final(self).registers@ == old(
                        self,
                    ).registers@.update(
                        i,
                        (Register { used: true, ..old(self).registers@[i] }),
                    ),
                Err(e) => {
                    &&& e == RegError::NoFreeRegister(size)
                    &&& *final(self) == *old(self)
                    &&& forall|i: int|
                        0 <= i < old(self).registers@.len() ==> !is_free_match(
                            #[trigger] old(self).registers@[i],
                            size,
                        )
                },
            },
    {
        let n = self.registers.len();
        let mut idx: usize = 0;
        while idx < n
            invariant
                n == self.registers@.len(),
                idx <= n,
                *self == *old(self),
                forall|j: int| 0 <= j < idx ==> !is_free_match(#[trigger] self.registers@[j], size),
            decreases n - idx,
        {
            let reg = self.registers[idx];
            if !reg.used && reg.size == size {
                let updated = Register { used: true, ..reg };
                self.registers[idx] = updated;
                return Ok(reg.label);
            }
            idx = idx + 1;
        }
        Err(RegError::NoFreeRegister(size))
    }

    /// Clear the used flag of the given register; report a register that is
    /// not in use.
    pub fn deallocate(&mut self, label: RegisterLabel) -> (r: Result<(), RegError>)
        ensures
            match r {
                Ok(()) => exists|i: int|
                    0 <= i < old(self).registers@.len() && (#[trigger] old(self).registers@[i]).used
                        && old(self).registers@[i].label == label && (forall|j: int|
                        0 <= j < i ==> !((#[trigger] old(self).registers@[j]).used && old(
                            self,
                        ).registers@[j].label == label)) && final(self).registers@ == old(
                        self,
                    ).registers@.update(
                        i,
                        (Register { used: false, ..old(self).registers@[i] }),
                    ),
                Err(e) => {
                    &&& e == RegError::NotInUse(label)
                    &&& *final(self) == *old(self)
                    &&& forall|i: int|
                        0 <= i < old(self).registers@.len() ==> !((#[trigger] old(
                            self,
                        ).registers@[i]).used && old(self).registers@[i].label == label)
                },
            },
    {
        let n = self.registers.len();
        let mut idx: usize = 0;
        while idx < n
            invariant
                n == self.registers@.len(),
                idx <= n,
                *self == *old(self),
                forall|j: int|
                    0 <= j < idx ==> !((#[trigger] self.registers@[j]).used
                        && self.registers@[j].label == label),
            decreases n - idx,
        {
            let reg = self.registers[idx];
            if reg.used && reg.label == label {
                let updated = Register { used: false, ..reg };
                self.registers[idx] = updated;
                return Ok(());
            }
            idx = idx + 1;
        }
        Err(RegError::NotInUse(label))
    }

    /// Free every register in the pool.
    pub fn deallocate_all(&mut self)
        ensures
            final(self).registers@.len() == old(self).registers@.len(),
            forall|i: int|
                0 <= i < old(self).registers@.len() ==> #[trigger] final(self).registers@[i] == (Register {
                    used: false,
                    ..old(self).registers@[i]
                }),
    {
        let n = self.registers.len();
        let mut idx: usize = 0;
        while idx < n
            invariant
                n == self.registers@.len(),
                idx <= n,
                self.registers@.len() == old(self).registers@.len(),
                forall|i: int|
                    idx <= i < n ==> #[trigger] self.registers@[i] == old(self).registers@[i],
                forall|i: int|
                    0 <= i < idx ==> #[trigger] self.registers@[i] == (Register {
                        used: false,
                        ..old(self).registers@[i]
                    }),
            decreases n - idx,
        {
            let reg = self.registers[idx];
            let updated = Register { used: false, ..reg };
            self.registers[idx] = updated;
            idx = idx + 1;
        }
    }
}

/// The register width that holds a value of the given byte size.
pub open spec fn spec_size_to_reg_size(bytes: nat) -> RegisterSize {
    if bytes == 1 {
        RegisterSize::Byte
    } else if bytes == 2 {
        RegisterSize::Word
    } else if bytes == 4 {
        RegisterSize::Dword
    } else if bytes == 8 {
        RegisterSize::Qword
    } else {
        RegisterSize::Oword
    }
}

/// Whether a byte size names a register width.
pub open spec fn is_reg_width(bytes: nat) -> bool {
    bytes == 1 || bytes == 2 || bytes == 4 || bytes == 8 || bytes == 16
}

/// Map a byte size to the register width that holds it.
pub fn size_to_reg_size(bytes: usize) -> (r: RegisterSize)
    requires
        is_reg_width(bytes as nat),
    ensures
        r == spec_size_to_reg_size(bytes as nat),
{
    if bytes == 1 {
        RegisterSize::Byte
    } else if bytes == 2 {
        RegisterSize::Word
    } else if bytes == 4 {
        RegisterSize::Dword
    } else if bytes == 8 {
        RegisterSize::Qword
    } else {
        RegisterSize::Oword
    }
}

/// The NASM size keyword for a register width.
pub fn reg_size_to_str(size: RegisterSize) -> (r: &'static str)
    ensures
        size == RegisterSize::Byte ==> r@ == "byte"@,
        size == RegisterSize::Word ==> r@ == "word"@,
        size == RegisterSize::Dword ==> r@ == "dword"@,
        size == RegisterSize::Qword ==> r@ == "qword"@,
        size == RegisterSize::Oword ==> r@ == "oword"@,
{
    match size {
        RegisterSize::Byte => "byte",
        RegisterSize::Word => "word",
        RegisterSize::Dword => "dword",
        RegisterSize::Qword => "qword",
        RegisterSize::Oword => "oword",
    }
}

} // verus!
