# monkeyos

The part of a small monolithic kernel that does not touch the machine, verified with Verus.

`src/` is a library of state transitions. What only the machine can say (which frame is free, how
large a file is, how much time went by, whether a task is still alive) is handed in as an argument.
What only the machine can do (copy a frame, store bytes in user memory, end a thread) comes back as a
value. Every function states in its contract what it returns and what it leaves unchanged; properties
that span several functions are proof functions whose names begin with `law_`.

| module | subject |
| --- | --- |
| `errno`, `usermem`, `vfs`, `fdtypes`, `sigtypes` | error numbers, bytes in memory, metadata, numbers of the ABI |
| `ramfile`, `ramfs` | files in page frames, directories, links |
| `pipe`, `devfs`, `procfs` | pipes and files with fixed contents |
| `memset`, `task` | address spaces, processes and threads |
| `user`, `signal`, `kernel` | page faults, system calls, signals, traps |
| `ipc`, `sys` | shared memory, semaphores, message queues, other system calls |
| `heap`, `runtime` | the allocator of the kernel |
| `kvirtio` | block devices |
| `initproc`, `scripts` | the first process |

`app/` holds the loops that carry out what the library decides, the driver for block devices, and a
program that runs the script of the first process on the hosting system. `tests/` runs the library.
