//! The texts of the commands and tests that the first process runs.
use vstd::prelude::*;

verus! {

/// Commands for machines other than LoongArch, run in `/musl/basic`.
pub const MUSL_BASIC: [&'static str; 26] = [
    "/musl/busybox mkdir -p /bin",
    "/musl/busybox cp /musl/busybox /sleep",
    "/musl/busybox cp /musl/busybox /bin/sleep",
    "/musl/busybox cp /musl/busybox /bin/cp",
    "/musl/busybox cp /musl/busybox /bin/ls",
    "/musl/busybox cp /musl/busybox /bin/mkdir",
    "/musl/busybox cp /musl/busybox /bin/mv",
    "/musl/busybox cp /musl/busybox /bin/rm",
    "/musl/busybox cp /musl/busybox /bin/cat",
    "/musl/busybox cp /musl/busybox /bin/echo",
    "/musl/busybox cp /musl/busybox /bin/chmod",
    "/musl/busybox chmod +x /sleep",
    "/musl/busybox chmod +x /bin/sleep",
    "/musl/busybox chmod +x /bin/cp",
    "/musl/busybox chmod +x /bin/ls",
    "/musl/busybox chmod +x /bin/mkdir",
    "/musl/busybox chmod +x /bin/mv",
    "/musl/busybox chmod +x /bin/rm",
    "/musl/busybox chmod +x /bin/cat",
    "/musl/busybox chmod +x /bin/echo",
    "/musl/busybox chmod +x /bin/chmod",
    "/musl/busybox cp /glibc/lib/libm.so /glibc/lib/libm.so.6",
    "/musl/busybox cp /glibc/lib/libc.so /glibc/lib/libc.so.6",
    "/musl/busybox echo #### OS COMP TEST GROUP START basic-musl ####",
    "/musl/busybox sh /musl/basic/run-all.sh",
    "/musl/busybox echo #### OS COMP TEST GROUP END basic-musl ####",
];

/// Commands for machines other than LoongArch, run in `/musl`.
pub const MUSL_MAIN: [&'static str; 48] = [
    "/musl/busybox echo #### OS COMP TEST GROUP START ltp-musl ####",
    "/musl/busybox mkdir -p /tmp",
    "/musl/busybox mkdir -p /var/tmp",
    "/musl/busybox chmod 1777 /tmp",
    "/musl/busybox chmod 1777 /var/tmp",
    "/musl/busybox touch /tmp/.test_marker",
    "/musl/busybox rm -f /tmp/.test_marker",
    "/musl/busybox sh ",
    "/musl/busybox sh ltp_testcode.sh",
    "/musl/busybox echo #### OS COMP TEST GROUP END ltp-musl ####",
    "/musl/busybox echo #### OS COMP TEST GROUP START lmbench-musl ####",
    "/musl/busybox echo latency measurements",
    "/musl/lmbench_all lat_syscall -P 1 null",
    "/musl/lmbench_all lat_syscall -P 1 read",
    "/musl/lmbench_all lat_syscall -P 1 write",
    "/musl/busybox mkdir -p /var/tmp",
    "/musl/busybox touch /var/tmp/lmbench",
    "/musl/lmbench_all lat_syscall -P 1 stat /var/tmp/lmbench",
    "/musl/lmbench_all lat_syscall -P 1 fstat /var/tmp/lmbench",
    "/musl/lmbench_all lat_syscall -P 1 open /var/tmp/lmbench",
    "/musl/lmbench_all lat_select -n 100 -P 1 file",
    "/musl/lmbench_all lat_sig -P 1 install",
    "/musl/lmbench_all lat_sig -P 1 catch",
    "/musl/lmbench_all lat_sig -P 1 prot lat_sig",
    "/musl/lmbench_all lat_pipe -P 1",
    "/musl/lmbench_all lat_proc -P 1 fork",
    "/musl/busybox cp hello /tmp",
    "/musl/busybox mkdir -p /var/tmp",
    "/musl/lmbench_all lmdd label=\"File /var/tmp/XXX write bandwidth:\" of=/var/tmp/XXX move=1m fsync=1 print=3",
    "/musl/lmbench_all lat_pagefault -P 1 /var/tmp/XXX",
    "/musl/lmbench_all lat_mmap -P 1 512k /var/tmp/XXX",
    "/musl/busybox echo file system latency",
    "/musl/lmbench_all lat_fs /var/tmp",
    "/musl/busybox echo Bandwidth measurements",
    "/musl/lmbench_all bw_pipe -P 1",
    "/musl/lmbench_all bw_file_rd -P 1 512k io_only /var/tmp/XXX",
    "/musl/lmbench_all bw_file_rd -P 1 512k open2close /var/tmp/XXX",
    "/musl/lmbench_all bw_mmap_rd -P 1 512k mmap_only /var/tmp/XXX",
    "/musl/lmbench_all bw_mmap_rd -P 1 512k open2close /var/tmp/XXX",
    "/musl/busybox echo context switch overhead",
    "/musl/lmbench_all lat_ctx -P 1 -s 32 2 4 8 16 24 32 64 96",
    "/musl/busybox echo #### OS COMP TEST GROUP END lmbench-musl ####",
    "/musl/busybox sh /musl/iozone_testcode.sh",
    "/musl/busybox sh /musl/libcbench_testcode.sh",
    "/musl/busybox sh busybox_testcode.sh",
    "/musl/busybox sh lua_testcode.sh",
    "/musl/busybox sh libctest_testcode.sh",
    "/musl/busybox echo #### OS COMP TEST GROUP END libctest-musl ####",
];

/// Commands for machines other than LoongArch, run in `/glibc/basic`.
pub const GLIBC_BASIC: [&'static str; 8] = [
    "/glibc/busybox mkdir -p /bin",
    "/glibc/busybox cp /glibc/busybox /sleep",
    "/glibc/busybox cp /glibc/busybox /bin/sleep",
    "/glibc/busybox chmod +x /sleep",
    "/glibc/busybox chmod +x /bin/sleep",
    "/glibc/busybox echo #### OS COMP TEST GROUP START basic-glibc ####",
    "/glibc/busybox sh /glibc/basic/run-all.sh",
    "/glibc/busybox echo #### OS COMP TEST GROUP END basic-glibc ####",
];

/// Commands for machines other than LoongArch, run in `/glibc`.
pub const GLIBC_LINKS: [&'static str; 5] = [
    "/glibc/busybox mkdir -p /bin",
    "/glibc/busybox cp /glibc/busybox /sleep",
    "/glibc/busybox cp /glibc/busybox /bin/sleep",
    "/glibc/busybox chmod +x /sleep",
    "/glibc/busybox chmod +x /bin/sleep",
];

/// Commands for machines other than LoongArch, run in `/glibc`.
pub const GLIBC_MAIN: [&'static str; 35] = [
    "/glibc/busybox echo #### OS COMP TEST GROUP START lmbench-glibc ####",
    "/glibc/busybox echo latency measurements",
    "/glibc/lmbench_all lat_syscall -P 1 null",
    "/glibc/lmbench_all lat_syscall -P 1 read",
    "/glibc/lmbench_all lat_syscall -P 1 write",
    "/glibc/busybox mkdir -p /var/tmp",
    "/glibc/busybox touch /var/tmp/lmbench",
    "/glibc/lmbench_all lat_syscall -P 1 stat /var/tmp/lmbench",
    "/glibc/lmbench_all lat_syscall -P 1 fstat /var/tmp/lmbench",
    "/glibc/lmbench_all lat_syscall -P 1 open /var/tmp/lmbench",
    "/glibc/lmbench_all lat_select -n 100 -P 1 file",
    "/glibc/lmbench_all lat_sig -P 1 install",
    "/glibc/lmbench_all lat_sig -P 1 catch",
    "/glibc/lmbench_all lat_sig -P 1 prot lat_sig",
    "/glibc/lmbench_all lat_pipe -P 1",
    "/glibc/lmbench_all lat_proc -P 1 fork",
    "/glibc/busybox cp hello /tmp",
    "/glibc/busybox mkdir -p /var/tmp",
    "/glibc/lmbench_all lmdd label=\"File /var/tmp/XXX write bandwidth:\" of=/var/tmp/XXX move=1m fsync=1 print=3",
    "/glibc/lmbench_all lat_pagefault -P 1 /var/tmp/XXX",
    "/glibc/lmbench_all lat_mmap -P 1 512k /var/tmp/XXX",
    "/glibc/busybox echo file system latency",
    "/glibc/lmbench_all lat_fs /var/tmp",
    "/glibc/busybox echo Bandwidth measurements",
    "/glibc/lmbench_all bw_pipe -P 1",
    "/glibc/lmbench_all bw_file_rd -P 1 512k io_only /var/tmp/XXX",
    "/glibc/lmbench_all bw_file_rd -P 1 512k open2close /var/tmp/XXX",
    "/glibc/lmbench_all bw_mmap_rd -P 1 512k mmap_only /var/tmp/XXX",
    "/glibc/lmbench_all bw_mmap_rd -P 1 512k open2close /var/tmp/XXX",
    "/glibc/busybox echo context switch overhead",
    "/glibc/lmbench_all lat_ctx -P 1 -s 32 2 4 8 16 24 32 64 96",
    "/glibc/busybox echo #### OS COMP TEST GROUP END lmbench-glibc ####",
    "/glibc/busybox sh /glibc/libcbench_testcode.sh",
    "/glibc/busybox sh busybox_testcode.sh",
    "/glibc/busybox sh lua_testcode.sh",
];

/// Commands for LoongArch, run in `/musl/basic`.
pub const LOONG_MUSL_BASIC: [&'static str; 24] = [
    "/musl/busybox mkdir -p /bin",
    "/musl/busybox cp /musl/busybox /sleep",
    "/musl/busybox cp /musl/busybox /bin/sleep",
    "/musl/busybox cp /musl/busybox /bin/cp",
    "/musl/busybox cp /musl/busybox /bin/ls",
    "/musl/busybox cp /musl/busybox /bin/mkdir",
    "/musl/busybox cp /musl/busybox /bin/mv",
    "/musl/busybox cp /musl/busybox /bin/rm",
    "/musl/busybox cp /musl/busybox /bin/cat",
    "/musl/busybox cp /musl/busybox /bin/echo",
    "/musl/busybox cp /musl/busybox /bin/chmod",
    "/musl/busybox chmod +x /sleep",
    "/musl/busybox chmod +x /bin/sleep",
    "/musl/busybox chmod +x /bin/cp",
    "/musl/busybox chmod +x /bin/ls",
    "/musl/busybox chmod +x /bin/mkdir",
    "/musl/busybox chmod +x /bin/mv",
    "/musl/busybox chmod +x /bin/rm",
    "/musl/busybox chmod +x /bin/cat",
    "/musl/busybox chmod +x /bin/echo",
    "/musl/busybox chmod +x /bin/chmod",
    "/musl/busybox echo #### OS COMP TEST GROUP START basic-musl ####",
    "/musl/busybox sh /musl/basic/run-all.sh",
    "/musl/busybox echo #### OS COMP TEST GROUP END basic-musl ####",
];

/// Commands for LoongArch, run in `/musl`.
pub const LOONG_MUSL_LTP: [&'static str; 9] = [
    "/musl/busybox echo #### OS COMP TEST GROUP START ltp-musl ####",
    "/musl/busybox mkdir -p /tmp",
    "/musl/busybox mkdir -p /var/tmp",
    "/musl/busybox chmod 1777 /tmp",
    "/musl/busybox chmod 1777 /var/tmp",
    "/musl/busybox touch /tmp/.test_marker",
    "/musl/busybox rm -f /tmp/.test_marker",
    "/musl/busybox sh ltp_testcode.sh",
    "/musl/busybox echo #### OS COMP TEST GROUP END ltp-musl ####",
];

/// Commands for LoongArch, run in `/musl`.
pub const LOONG_MUSL_MAIN: [&'static str; 6] = [
    "/musl/busybox sh lmbench_testcode.sh",
    "/musl/busybox sh /musl/iozone_testcode.sh",
    "/musl/busybox sh libcbench_testcode.sh",
    "/musl/busybox sh busybox_testcode.sh",
    "/musl/busybox sh lua_testcode.sh",
    "/musl/busybox echo #### OS COMP TEST GROUP START libctest-musl ####",
];

/// Commands for LoongArch, run in `/musl`.
pub const LOONG_MUSL_END: [&'static str; 1] = [
    "/musl/busybox echo #### OS COMP TEST GROUP END libctest-musl ####",
];

/// Commands for LoongArch, run in `/glibc/basic`.
pub const LOONG_GLIBC_BASIC: [&'static str; 8] = [
    "/glibc/busybox mkdir -p /bin",
    "/glibc/busybox cp /glibc/busybox /sleep",
    "/glibc/busybox cp /glibc/busybox /bin/sleep",
    "/glibc/busybox chmod +x /sleep",
    "/glibc/busybox chmod +x /bin/sleep",
    "/glibc/busybox echo #### OS COMP TEST GROUP START basic-glibc ####",
    "/glibc/busybox sh /glibc/basic/run-all.sh",
    "/glibc/busybox echo #### OS COMP TEST GROUP END basic-glibc ####",
];

/// Commands for LoongArch, run in `/glibc`.
pub const LOONG_GLIBC_MAIN: [&'static str; 9] = [
    "/glibc/busybox mkdir -p /bin",
    "/glibc/busybox cp /glibc/busybox /sleep",
    "/glibc/busybox cp /glibc/busybox /bin/sleep",
    "/glibc/busybox chmod +x /sleep",
    "/glibc/busybox chmod +x /bin/sleep",
    "/glibc/busybox sh lmbench_testcode.sh",
    "/glibc/busybox sh libcbench_testcode.sh",
    "/glibc/busybox sh busybox_testcode.sh",
    "/glibc/busybox sh lua_testcode.sh",
];

/// The tests of the C library that a statically linked program runs.
pub const STATIC_TESTS: [&'static str; 107] = [
    "argv",
    "basename",
    "clocale_mbfuncs",
    "clock_gettime",
    "dirname",
    "env",
    "fdopen",
    "fnmatch",
    "fscanf",
    "fwscanf",
    "iconv_open",
    "inet_pton",
    "mbc",
    "memstream",
    "pthread_cancel_points",
    "pthread_cancel",
    "pthread_cond",
    "pthread_tsd",
    "qsort",
    "random",
    "search_hsearch",
    "search_insque",
    "search_lsearch",
    "search_tsearch",
    "setjmp",
    "snprintf",
    "socket",
    "sscanf",
    "sscanf_long",
    "stat",
    "strftime",
    "string",
    "string_memcpy",
    "string_memmem",
    "string_memset",
    "string_strchr",
    "string_strcspn",
    "string_strstr",
    "strptime",
    "strtod",
    "strtod_simple",
    "strtof",
    "strtol",
    "strtold",
    "swprintf",
    "tgmath",
    "time",
    "tls_align",
    "udiv",
    "ungetc",
    "utime",
    "wcsstr",
    "wcstol",
    "daemon_failure",
    "dn_expand_empty",
    "dn_expand_ptr_0",
    "fflush_exit",
    "fgets_eof",
    "fgetwc_buffering",
    "fpclassify_invalid_ld80",
    "ftello_unflushed_append",
    "getpwnam_r_crash",
    "getpwnam_r_errno",
    "iconv_roundtrips",
    "inet_ntop_v4mapped",
    "inet_pton_empty_last_field",
    "iswspace_null",
    "lrand48_signextend",
    "lseek_large",
    "malloc_0",
    "mbsrtowcs_overflow",
    "memmem_oob_read",
    "memmem_oob",
    "mkdtemp_failure",
    "mkstemp_failure",
    "printf_1e9_oob",
    "printf_fmt_g_round",
    "printf_fmt_g_zeros",
    "printf_fmt_n",
    "pthread_robust_detach",
    "pthread_cancel_sem_wait",
    "pthread_cond_smasher",
    "pthread_condattr_setclock",
    "pthread_exit_cancel",
    "pthread_once_deadlock",
    "pthread_rwlock_ebusy",
    "putenv_doublefree",
    "regex_backref_0",
    "regex_bracket_icase",
    "regex_ere_backref",
    "regex_escaped_high_byte",
    "regex_negated_range",
    "regexec_nosub",
    "rewind_clear_error",
    "rlimit_open_files",
    "scanf_bytes_consumed",
    "scanf_match_literal_eof",
    "scanf_nullbyte_char",
    "setvbuf_unget",
    "sigprocmask_internal",
    "sscanf_eof",
    "statvfs",
    "strverscmp",
    "syscall_sign_extend",
    "uselocale_0",
    "wcsncpy_read_overflow",
    "wcsstr_false_negative",
];

/// The tests of the C library that a dynamically linked program runs.
pub const DYNAMIC_TESTS: [&'static str; 110] = [
    "argv",
    "basename",
    "clocale_mbfuncs",
    "clock_gettime",
    "dirname",
    "dlopen",
    "env",
    "fdopen",
    "fnmatch",
    "fscanf",
    "fwscanf",
    "iconv_open",
    "inet_pton",
    "mbc",
    "memstream",
    "pthread_cancel_points",
    "pthread_cancel",
    "pthread_cond",
    "pthread_tsd",
    "qsort",
    "random",
    "search_hsearch",
    "search_insque",
    "search_lsearch",
    "search_tsearch",
    "sem_init",
    "setjmp",
    "snprintf",
    "socket",
    "sscanf",
    "sscanf_long",
    "stat",
    "strftime",
    "string",
    "string_memcpy",
    "string_memmem",
    "string_memset",
    "string_strchr",
    "string_strcspn",
    "string_strstr",
    "strptime",
    "strtod",
    "strtod_simple",
    "strtof",
    "strtol",
    "strtold",
    "swprintf",
    "tgmath",
    "time",
    "tls_init",
    "tls_local_exec",
    "udiv",
    "ungetc",
    "utime",
    "wcsstr",
    "wcstol",
    "daemon_failure",
    "dn_expand_empty",
    "dn_expand_ptr_0",
    "fflush_exit",
    "fgets_eof",
    "fgetwc_buffering",
    "fpclassify_invalid_ld80",
    "ftello_unflushed_append",
    "getpwnam_r_crash",
    "getpwnam_r_errno",
    "iconv_roundtrips",
    "inet_ntop_v4mapped",
    "inet_pton_empty_last_field",
    "iswspace_null",
    "lrand48_signextend",
    "lseek_large",
    "malloc_0",
    "mbsrtowcs_overflow",
    "memmem_oob_read",
    "memmem_oob",
    "mkdtemp_failure",
    "mkstemp_failure",
    "printf_1e9_oob",
    "printf_fmt_g_round",
    "printf_fmt_g_zeros",
    "printf_fmt_n",
    "pthread_robust_detach",
    "pthread_cond_smasher",
    "pthread_condattr_setclock",
    "pthread_exit_cancel",
    "pthread_once_deadlock",
    "pthread_rwlock_ebusy",
    "putenv_doublefree",
    "regex_backref_0",
    "regex_bracket_icase",
    "regex_ere_backref",
    "regex_escaped_high_byte",
    "regex_negated_range",
    "regexec_nosub",
    "rewind_clear_error",
    "rlimit_open_files",
    "scanf_bytes_consumed",
    "scanf_match_literal_eof",
    "scanf_nullbyte_char",
    "setvbuf_unget",
    "sigprocmask_internal",
    "sscanf_eof",
    "statvfs",
    "strverscmp",
    "syscall_sign_extend",
    "tls_get_new_dtv",
    "uselocale_0",
    "wcsncpy_read_overflow",
    "wcsstr_false_negative",
];

/// The tests that are left out on LoongArch, in both programs.
pub const LOONG_EXCLUDED: [&'static str; 12] = [
    "pthread_robust_detach",
    "setvbuf_unget",
    "pthread_cancel_points",
    "pthread_cancel",
    "pthread_cond",
    "pthread_tsd",
    "pthread_cancel_sem_wait",
    "pthread_cond_smasher",
    "pthread_condattr_setclock",
    "pthread_exit_cancel",
    "pthread_once_deadlock",
    "pthread_rwlock_ebusy",
];

} // verus!
